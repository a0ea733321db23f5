use vstd::prelude::*;
use crate::fmt::{decimal_spec, decimal_string};
use crate::quote::{shell_quote_spec, shell_single_quote};
use crate::text::{chars_of, concat_str, join_spec, join_strings, string_from_chars};
use crate::remote::{SshHost, opt_string_view};
use crate::integration::catalog::str_eq;

verus! {

/// The name of the tmux session of a split shell: `sbrs_`, the view's
/// letter, the process id and the time stamp's last nine digits.
pub open spec fn session_name_spec(letter: char, pid: u32, stamp_nanos: u64) -> Seq<char> {
    "sbrs_"@ + seq![letter] + "_"@ + decimal_spec(pid as nat) + "_"@ + decimal_spec((stamp_nanos % 1_000_000_000) as nat)
}

/// The name of the tmux session of a split shell (see [`session_name_spec`]).
pub fn split_session_name(letter: char, pid: u32, stamp_nanos: u64) -> (r: String)
    ensures
        r@ == session_name_spec(letter, pid, stamp_nanos),
{
    let mut lv: Vec<char> = Vec::new();
    lv.push(letter);
    let l = crate::text::string_from_chars(lv.as_slice());
    let a = concat_str("sbrs_", l.as_str());
    let b = concat_str(a.as_str(), "_");
    let c = concat_str(b.as_str(), decimal_string(pid as u64).as_str());
    let d = concat_str(c.as_str(), "_");
    let r = concat_str(d.as_str(), decimal_string(stamp_nanos % 1_000_000_000).as_str());
    assert(l@ =~= seq![letter]);
    r
}

/// The command of the left pane: an interactive shell that ends the
/// session when it exits.
pub open spec fn left_pane_spec(shell: Seq<char>, session: Seq<char>) -> Seq<char> {
    shell_quote_spec(shell) + " -i; tmux kill-session -t "@ + shell_quote_spec(session) + " >/dev/null 2>&1"@
}

/// The command of the right pane: the editor on the file, or `less -R` on
/// it.
pub open spec fn right_pane_spec(editor: Option<Seq<char>>, file: Seq<char>) -> Seq<char> {
    match editor {
        Some(e) => e + " -- "@ + shell_quote_spec(file),
        None => "less -R -- "@ + shell_quote_spec(file),
    }
}

/// The tmux commands of a split shell, in order: make the session with the
/// shell pane, split a 30% pane for the file, select the shell pane,
/// attach, and end the session.
pub struct SplitShellPlan {
    pub new_session: Vec<String>,
    pub split_window: Vec<String>,
    pub select_pane: Vec<String>,
    pub attach_session: Vec<String>,
    pub kill_session: Vec<String>,
}

/// The views of an argument list.
pub open spec fn arg_views(v: Seq<String>) -> Seq<Seq<char>> {
    v.map_values(|s: String| s@)
}

fn push_str(v: &mut Vec<String>, s: &str)
    ensures
        arg_views(final(v)@) == arg_views(old(v)@).push(s@),
{
    let ghost before = arg_views(v@);
    v.push(s.to_string());
    assert(arg_views(v@) =~= before.push(s@));
}

/// The tmux commands of a split shell with `shell` on the left and the
/// right pane's command on the right, both starting in `dir`.
pub open spec fn split_plan_ok(p: SplitShellPlan, session: Seq<char>, dir: Seq<char>, left: Seq<char>, right: Seq<char>) -> bool {
    &&& arg_views(p.new_session@) == seq!["new-session"@, "-d"@, "-s"@, session, "-c"@, dir, left]
    &&& arg_views(p.split_window@) == seq!["split-window"@, "-h"@, "-p"@, "30"@, "-t"@, session + ":0"@, "-c"@, dir, right]
    &&& arg_views(p.select_pane@) == seq!["select-pane"@, "-t"@, session + ":0.0"@]
    &&& arg_views(p.attach_session@) == seq!["attach-session"@, "-t"@, session]
    &&& arg_views(p.kill_session@) == seq!["kill-session"@, "-t"@, session]
}

/// The tmux commands of a split shell: the editor (or `less` when
/// `editor` is `None`) on `file` beside an interactive `shell`.
pub fn split_shell_plan(shell: &str, editor: Option<&str>, file: &str, session: &str, dir: &str) -> (r: SplitShellPlan)
    ensures
        split_plan_ok(r, session@, dir@, left_pane_spec(shell@, session@), right_pane_spec(match editor {
            Some(e) => Some(e@),
            None => None,
        }, file@)),
{
    let qs = shell_single_quote(shell);
    let qn = shell_single_quote(session);
    let l1 = concat_str(qs.as_str(), " -i; tmux kill-session -t ");
    let l2 = concat_str(l1.as_str(), qn.as_str());
    let left = concat_str(l2.as_str(), " >/dev/null 2>&1");
    let qf = shell_single_quote(file);
    let right = match editor {
        Some(e) => {
            let r1 = concat_str(e, " -- ");
            concat_str(r1.as_str(), qf.as_str())
        },
        None => concat_str("less -R -- ", qf.as_str()),
    };
    let window = concat_str(session, ":0");
    let left_pane = concat_str(session, ":0.0");
    let mut ns: Vec<String> = Vec::new();
    assert(arg_views(ns@) =~= Seq::<Seq<char>>::empty());
    push_str(&mut ns, "new-session");
    push_str(&mut ns, "-d");
    push_str(&mut ns, "-s");
    push_str(&mut ns, session);
    push_str(&mut ns, "-c");
    push_str(&mut ns, dir);
    push_str(&mut ns, left.as_str());
    let mut sw: Vec<String> = Vec::new();
    assert(arg_views(sw@) =~= Seq::<Seq<char>>::empty());
    push_str(&mut sw, "split-window");
    push_str(&mut sw, "-h");
    push_str(&mut sw, "-p");
    push_str(&mut sw, "30");
    push_str(&mut sw, "-t");
    push_str(&mut sw, window.as_str());
    push_str(&mut sw, "-c");
    push_str(&mut sw, dir);
    push_str(&mut sw, right.as_str());
    let mut sp: Vec<String> = Vec::new();
    assert(arg_views(sp@) =~= Seq::<Seq<char>>::empty());
    push_str(&mut sp, "select-pane");
    push_str(&mut sp, "-t");
    push_str(&mut sp, left_pane.as_str());
    let mut at: Vec<String> = Vec::new();
    assert(arg_views(at@) =~= Seq::<Seq<char>>::empty());
    push_str(&mut at, "attach-session");
    push_str(&mut at, "-t");
    push_str(&mut at, session);
    let mut ks: Vec<String> = Vec::new();
    assert(arg_views(ks@) =~= Seq::<Seq<char>>::empty());
    push_str(&mut ks, "kill-session");
    push_str(&mut ks, "-t");
    push_str(&mut ks, session);
    let p = SplitShellPlan { new_session: ns, split_window: sw, select_pane: sp, attach_session: at, kill_session: ks };
    assert(arg_views(p.new_session@) =~= seq!["new-session"@, "-d"@, "-s"@, session@, "-c"@, dir@, left@]);
    assert(arg_views(p.split_window@) =~= seq!["split-window"@, "-h"@, "-p"@, "30"@, "-t"@, session@ + ":0"@, "-c"@, dir@, right@]);
    assert(arg_views(p.select_pane@) =~= seq!["select-pane"@, "-t"@, session@ + ":0.0"@]);
    assert(arg_views(p.attach_session@) =~= seq!["attach-session"@, "-t"@, session@]);
    assert(arg_views(p.kill_session@) =~= seq!["kill-session"@, "-t"@, session@]);
    p
}

/// Each `~` of `s` replaced by `with`.
pub open spec fn replace_tilde(s: Seq<char>, with: Seq<char>) -> Seq<char>
    decreases s.len(),
{
    if s.len() == 0 {
        Seq::empty()
    } else {
        replace_tilde(s.drop_last(), with) + (if s.last() == '~' { with } else { seq![s.last()] })
    }
}

fn replace_tilde_exec(s: &str, with: &str) -> (r: String)
    ensures
        r@ == replace_tilde(s@, with@),
{
    let c = chars_of(s);
    let w = chars_of(with);
    let mut out: Vec<char> = Vec::new();
    let mut i: usize = 0;
    assert(c@.take(0) =~= Seq::<char>::empty());
    while i < c.len()
        invariant
            i <= c.len(),
            c@ == s@,
            w@ == with@,
            out@ == replace_tilde(c@.take(i as int), with@),
        decreases c.len() - i,
    {
        assert(c@.take(i + 1).drop_last() =~= c@.take(i as int));
        assert(c@.take(i + 1).last() == c@[i as int]);
        if c[i] == '~' {
            let mut k: usize = 0;
            let ghost base = out@;
            while k < w.len()
                invariant
                    k <= w.len(),
                    out@ == base + w@.take(k as int),
                decreases w.len() - k,
            {
                out.push(w[k]);
                assert(w@.take(k + 1) =~= w@.take(k as int).push(w@[k as int]));
                k = k + 1;
            }
            assert(w@.take(w.len() as int) =~= w@);
        } else {
            let ghost base = out@;
            out.push(c[i]);
            assert(out@ =~= base + seq![c@[i as int]]);
        }
        i = i + 1;
    }
    assert(c@.take(c.len() as int) =~= c@);
    string_from_chars(out.as_slice())
}

/// How a host is mounted with `sshfs`: the mount directory under `/tmp`,
/// the arguments (port, identity file with `~` as the home directory, the
/// remote spec `[user@]host:` and the mount directory), and the label the
/// header shows for it.
pub struct SshfsPlan {
    pub mount_dir: String,
    pub args: Vec<String>,
    pub remote_label: String,
}

/// The `sshfs` mount of a host (see [`SshfsPlan`]); `home`: the home
/// directory, empty when it is not known.
pub open spec fn sshfs_args_spec(alias: Seq<char>, hostname: Seq<char>, user: Option<Seq<char>>, port: Option<u16>, identity: Option<Seq<char>>, home: Seq<char>) -> Seq<Seq<char>> {
    let p: Seq<Seq<char>> = match port {
        Some(n) => seq!["-p"@, decimal_spec(n as nat)],
        None => seq![],
    };
    let i: Seq<Seq<char>> = match identity {
        Some(f) => p + seq!["-o"@, "IdentityFile="@ + replace_tilde(f, home)],
        None => p,
    };
    let remote = match user {
        Some(u) => u + "@"@ + hostname + ":"@,
        None => hostname + ":"@,
    };
    i + seq![remote, "/tmp/sbrs_sshfs_"@ + alias]
}

/// The `sshfs` mount of a host (see [`sshfs_args_spec`]).
pub fn sshfs_mount_plan(host: &SshHost, home: &str) -> (r: SshfsPlan)
    ensures
        r.mount_dir@ == "/tmp/sbrs_sshfs_"@ + host.alias@,
        arg_views(r.args@) == sshfs_args_spec(host.alias@, host.hostname@, opt_string_view(host.user), host.port, opt_string_view(host.identity_file), home@),
        r.remote_label@ == match host.user {
            Some(u) => u@ + "@"@ + host.hostname@,
            None => host.hostname@,
        },
{
    let mount_dir = concat_str("/tmp/sbrs_sshfs_", host.alias.as_str());
    let mut args: Vec<String> = Vec::new();
    assert(arg_views(args@) =~= Seq::<Seq<char>>::empty());
    match host.port {
        Some(n) => {
            push_str(&mut args, "-p");
            push_str(&mut args, decimal_string(n as u64).as_str());
        },
        None => {},
    }
    match &host.identity_file {
        Some(f) => {
            push_str(&mut args, "-o");
            let expanded = replace_tilde_exec(f.as_str(), home);
            push_str(&mut args, concat_str("IdentityFile=", expanded.as_str()).as_str());
        },
        None => {},
    }
    let (remote, label) = match &host.user {
        Some(u) => {
            let a = concat_str(u.as_str(), "@");
            let b = concat_str(a.as_str(), host.hostname.as_str());
            (concat_str(b.as_str(), ":"), b)
        },
        None => (concat_str(host.hostname.as_str(), ":"), host.hostname.clone()),
    };
    push_str(&mut args, remote.as_str());
    push_str(&mut args, mount_dir.as_str());
    assert(arg_views(args@) =~= sshfs_args_spec(host.alias@, host.hostname@, opt_string_view(host.user), host.port, opt_string_view(host.identity_file), home@));
    SshfsPlan { mount_dir, args, remote_label: label }
}

/// The directory an rclone remote is mounted on.
pub open spec fn rclone_mount_dir_spec(name: Seq<char>) -> Seq<char> {
    "/tmp/sbrs_rclone_"@ + name
}

/// The `rclone` arguments that mount remote `name` (as `name:`) on its
/// directory, in the background, caching writes.
pub open spec fn rclone_mount_args_spec(name: Seq<char>) -> Seq<Seq<char>> {
    seq!["mount"@, name + ":"@, rclone_mount_dir_spec(name), "--daemon"@, "--vfs-cache-mode"@, "writes"@]
}

/// The directory and the `rclone` arguments that mount a remote (see
/// [`rclone_mount_args_spec`]).
pub fn rclone_mount_plan(name: &str) -> (r: (String, Vec<String>))
    ensures
        r.0@ == rclone_mount_dir_spec(name@),
        arg_views(r.1@) == rclone_mount_args_spec(name@),
{
    let mount_dir = concat_str("/tmp/sbrs_rclone_", name);
    let mut args: Vec<String> = Vec::new();
    push_str(&mut args, "mount");
    push_str(&mut args, concat_str(name, ":").as_str());
    push_str(&mut args, mount_dir.as_str());
    push_str(&mut args, "--daemon");
    push_str(&mut args, "--vfs-cache-mode");
    push_str(&mut args, "writes");
    assert(arg_views(args@) =~= rclone_mount_args_spec(name@));
    (mount_dir, args)
}

/// The program that opens a file with the desktop's default application,
/// and its arguments before the file: `xdg-open` when found, else
/// `gio open`; none when neither is found.
pub open spec fn default_opener_spec(xdg_open_found: bool, gio_found: bool) -> Option<(Seq<char>, Seq<Seq<char>>)> {
    if xdg_open_found {
        Some(("xdg-open"@, Seq::empty()))
    } else if gio_found {
        Some(("gio"@, seq!["open"@]))
    } else {
        None
    }
}

/// The default-application opener (see [`default_opener_spec`]).
pub fn default_opener(xdg_open_found: bool, gio_found: bool) -> (r: Option<(String, Vec<String>)>)
    ensures
        (match r {
            Some(p) => Some((p.0@, arg_views(p.1@))),
            None => None,
        }) == default_opener_spec(xdg_open_found, gio_found),
{
    if xdg_open_found {
        let args: Vec<String> = Vec::new();
        assert(arg_views(args@) =~= Seq::<Seq<char>>::empty());
        Some(("xdg-open".to_string(), args))
    } else if gio_found {
        let mut args: Vec<String> = Vec::new();
        push_str(&mut args, "open");
        assert(arg_views(args@) =~= seq!["open"@]);
        Some(("gio".to_string(), args))
    } else {
        None
    }
}

/// The status after opening the selected entry (`name`) with the default
/// application; without a selection, that there is none.
pub fn open_with_default_status(name: Option<&str>, opened: bool) -> (r: String)
    ensures
        r@ == match name {
            None => "no selected item"@,
            Some(n) => if opened {
                "opened with default app: "@ + n@
            } else {
                "no default opener found (tried xdg-open, gio open)"@
            },
        },
{
    match name {
        None => "no selected item".to_string(),
        Some(n) => if opened {
            concat_str("opened with default app: ", n)
        } else {
            "no default opener found (tried xdg-open, gio open)".to_string()
        },
    }
}

/// A clipboard tool: its name (also its program) and its arguments.
pub struct ClipboardBackend {
    pub name: String,
    pub args: Vec<String>,
}

/// The clipboard tools tried in turn to copy: `wl-copy`, `xclip` with the
/// clipboard selection, `xsel` with the clipboard as input, `pbcopy`.
pub open spec fn copy_backends_spec() -> Seq<(Seq<char>, Seq<Seq<char>>)> {
    seq![
        ("wl-copy"@, seq![]),
        ("xclip"@, seq!["-selection"@, "clipboard"@]),
        ("xsel"@, seq!["--clipboard"@, "--input"@]),
        ("pbcopy"@, seq![]),
    ]
}

fn backend(name: &str, a: Option<(&str, &str)>) -> (r: ClipboardBackend)
    ensures
        r.name@ == name@,
        arg_views(r.args@) == match a {
            Some(p) => seq![p.0@, p.1@],
            None => Seq::<Seq<char>>::empty(),
        },
{
    let mut args: Vec<String> = Vec::new();
    assert(arg_views(args@) =~= Seq::<Seq<char>>::empty());
    match a {
        Some((x, y)) => {
            push_str(&mut args, x);
            push_str(&mut args, y);
        },
        None => {},
    }
    ClipboardBackend { name: name.to_string(), args }
}

/// The clipboard tools tried in turn to copy (see [`copy_backends_spec`]).
pub fn clipboard_copy_backends() -> (r: Vec<ClipboardBackend>)
    ensures
        r@.map_values(|b: ClipboardBackend| (b.name@, arg_views(b.args@))) == copy_backends_spec(),
{
    let mut v: Vec<ClipboardBackend> = Vec::new();
    v.push(backend("wl-copy", None));
    v.push(backend("xclip", Some(("-selection", "clipboard"))));
    v.push(backend("xsel", Some(("--clipboard", "--input"))));
    v.push(backend("pbcopy", None));
    assert(v@.map_values(|b: ClipboardBackend| (b.name@, arg_views(b.args@))) =~= copy_backends_spec());
    v
}

/// How the clipboard is read through a copy tool: the program, its
/// arguments, and whether that program must be probed first (`wl-paste`
/// for `wl-copy`, `pbpaste` for `pbcopy`; `xclip` and `xsel` read the
/// clipboard themselves). None for another tool.
pub open spec fn paste_command_spec(backend: Seq<char>) -> Option<(Seq<char>, Seq<Seq<char>>, bool)> {
    if backend == "wl-copy"@ {
        Some(("wl-paste"@, Seq::empty(), true))
    } else if backend == "xclip"@ {
        Some(("xclip"@, seq!["-selection"@, "clipboard"@, "-out"@], false))
    } else if backend == "xsel"@ {
        Some(("xsel"@, seq!["--clipboard"@, "--output"@], false))
    } else if backend == "pbcopy"@ {
        Some(("pbpaste"@, Seq::empty(), true))
    } else {
        None
    }
}

/// How the clipboard is read through a copy tool (see
/// [`paste_command_spec`]).
pub fn clipboard_paste_command(backend: &str) -> (r: Option<(String, Vec<String>, bool)>)
    ensures
        (match r {
            Some(c) => Some((c.0@, arg_views(c.1@), c.2)),
            None => None,
        }) == paste_command_spec(backend@),
{
    let mut args: Vec<String> = Vec::new();
    assert(arg_views(args@) =~= Seq::<Seq<char>>::empty());
    if str_eq(backend, "wl-copy") {
        Some(("wl-paste".to_string(), args, true))
    } else if str_eq(backend, "xclip") {
        push_str(&mut args, "-selection");
        push_str(&mut args, "clipboard");
        push_str(&mut args, "-out");
        assert(arg_views(args@) =~= seq!["-selection"@, "clipboard"@, "-out"@]);
        Some(("xclip".to_string(), args, false))
    } else if str_eq(backend, "xsel") {
        push_str(&mut args, "--clipboard");
        push_str(&mut args, "--output");
        assert(arg_views(args@) =~= seq!["--clipboard"@, "--output"@]);
        Some(("xsel".to_string(), args, false))
    } else if str_eq(backend, "pbcopy") {
        Some(("pbpaste".to_string(), args, true))
    } else {
        None
    }
}

/// The text copied for the selected paths: one per line.
pub fn clipboard_payload(paths: &Vec<String>) -> (r: String)
    ensures
        r@ == join_spec(arg_views(paths@), "\n"@),
{
    join_strings(paths, "\n")
}

/// The status after copying paths: how many, and which tool took them.
pub fn clipboard_copy_status(count: u64, backend: Option<&str>) -> (r: String)
    ensures
        r@ == match backend {
            Some(b) => "copied "@ + decimal_spec(count as nat) + " full path(s) to system clipboard via "@ + b@,
            None => "no clipboard backend available (wl-copy/xclip/xsel/pbcopy)"@,
        },
{
    match backend {
        Some(b) => {
            let a = concat_str("copied ", decimal_string(count).as_str());
            let c = concat_str(a.as_str(), " full path(s) to system clipboard via ");
            concat_str(c.as_str(), b)
        },
        None => "no clipboard backend available (wl-copy/xclip/xsel/pbcopy)".to_string(),
    }
}

} // verus!
