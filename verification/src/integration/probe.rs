use vstd::prelude::*;
use crate::text::{
    ascii_lower_chars, ascii_lower_seq, chars_of, concat_str, contains_chars, contains_seq,
};
use crate::integration::catalog::str_eq;

verus! {

/// The inline image protocol a terminal speaks.
#[derive(Clone, Copy, Debug, PartialEq, Eq, Structural)]
pub enum TerminalImageProtocol {
    Kitty,
    Iterm2Inline,
    Sixel,
    Unsupported,
}

/// The name shown for a protocol.
pub open spec fn label_spec(p: TerminalImageProtocol) -> Seq<char> {
    match p {
        TerminalImageProtocol::Kitty => "kitty"@,
        TerminalImageProtocol::Iterm2Inline => "iterm2-inline"@,
        TerminalImageProtocol::Sixel => "sixel"@,
        TerminalImageProtocol::Unsupported => "unsupported"@,
    }
}

impl TerminalImageProtocol {
    /// The name shown for a protocol.
    pub fn label(self) -> (r: &'static str)
        ensures
            r@ == label_spec(self),
    {
        match self {
            TerminalImageProtocol::Kitty => "kitty",
            TerminalImageProtocol::Iterm2Inline => "iterm2-inline",
            TerminalImageProtocol::Sixel => "sixel",
            TerminalImageProtocol::Unsupported => "unsupported",
        }
    }
}

/// What the environment says about the terminal: `TERM` and `TERM_PROGRAM`
/// (empty when unset), and whether `KITTY_WINDOW_ID`, `KONSOLE_VERSION`,
/// `GHOSTTY_RESOURCES_DIR` and `WT_SESSION` are set.
pub struct TerminalEnv {
    pub term: String,
    pub term_program: String,
    pub kitty_window_id: bool,
    pub konsole_version: bool,
    pub ghostty_resources_dir: bool,
    pub wt_session: bool,
}

/// The protocol the environment points to, and why.
pub open spec fn image_protocol_spec(env: TerminalEnv) -> (TerminalImageProtocol, Seq<char>) {
    let term = ascii_lower_seq(env.term@);
    let prog = ascii_lower_seq(env.term_program@);
    if env.kitty_window_id || env.konsole_version || env.ghostty_resources_dir || contains_seq(
        term,
        "kitty"@,
    ) || contains_seq(term, "konsole"@) || contains_seq(prog, "warp"@) {
        (TerminalImageProtocol::Kitty, "env-detected kitty protocol"@)
    } else if contains_seq(prog, "iterm"@) || contains_seq(prog, "wezterm"@) {
        (TerminalImageProtocol::Iterm2Inline, "env-detected iTerm2 inline protocol"@)
    } else if env.wt_session || contains_seq(term, "foot"@) {
        (TerminalImageProtocol::Sixel, "env-detected sixel protocol"@)
    } else {
        (TerminalImageProtocol::Unsupported, "no known image protocol detected"@)
    }
}

fn has(s: &Vec<char>, pat: &str) -> (r: bool)
    ensures
        r == contains_seq(s@, pat@),
{
    let p = chars_of(pat);
    contains_chars(s, &p)
}

/// Picks the inline image protocol from what the environment says.
pub fn terminal_image_protocol(env: &TerminalEnv) -> (r: (TerminalImageProtocol, String))
    ensures
        (r.0, r.1@) == image_protocol_spec(*env),
{
    let term = ascii_lower_chars(&chars_of(env.term.as_str()));
    let prog = ascii_lower_chars(&chars_of(env.term_program.as_str()));
    if env.kitty_window_id || env.konsole_version || env.ghostty_resources_dir || has(&term, "kitty")
        || has(&term, "konsole") || has(&prog, "warp") {
        return (TerminalImageProtocol::Kitty, "env-detected kitty protocol".to_owned());
    }
    if has(&prog, "iterm") || has(&prog, "wezterm") {
        return (TerminalImageProtocol::Iterm2Inline, "env-detected iTerm2 inline protocol".to_owned());
    }
    if env.wt_session || has(&term, "foot") {
        return (TerminalImageProtocol::Sixel, "env-detected sixel protocol".to_owned());
    }
    (TerminalImageProtocol::Unsupported, "no known image protocol detected".to_owned())
}

/// Index of the first probe that found its tool, or -1.
pub open spec fn first_found_index(probes: Seq<(bool, String)>) -> int
    decreases probes.len(),
{
    if probes.len() == 0 {
        -1
    } else {
        let r = first_found_index(probes.drop_last());
        if r >= 0 {
            r
        } else if probes.last().0 {
            probes.len() - 1
        } else {
            -1
        }
    }
}

/// The path that the first successful probe reported.
pub open spec fn first_found_spec(probes: Seq<(bool, String)>) -> Option<Seq<char>> {
    let i = first_found_index(probes);
    if i >= 0 {
        Some(probes[i].1@)
    } else {
        None
    }
}

proof fn lemma_first_found_bounds(probes: Seq<(bool, String)>)
    ensures
        -1 <= first_found_index(probes) < probes.len(),
        first_found_index(probes) >= 0 ==> probes[first_found_index(probes)].0,
    decreases probes.len(),
{
    if probes.len() > 0 {
        lemma_first_found_bounds(probes.drop_last());
    }
}

/// The path from the first probe that found its tool.
fn first_found(probes: &Vec<(bool, String)>) -> (r: Option<String>)
    ensures
        match r {
            Some(p) => first_found_spec(probes@) == Some(p@),
            None => first_found_spec(probes@).is_none(),
        },
{
    let mut i: usize = 0;
    assert(probes@.take(0) =~= Seq::<(bool, String)>::empty());
    while i < probes.len()
        invariant
            i <= probes.len(),
            first_found_index(probes@.take(i as int)) == -1,
        decreases probes.len() - i,
    {
        assert(probes@.take(i + 1).drop_last() =~= probes@.take(i as int));
        if probes[i].0 {
            proof {
                lemma_first_found_prefix(probes@, i as int + 1);
            }
            return Some(probes[i].1.clone());
        }
        i = i + 1;
    }
    assert(probes@.take(probes.len() as int) =~= probes@);
    None
}

proof fn lemma_first_found_prefix(probes: Seq<(bool, String)>, n: int)
    requires
        0 <= n <= probes.len(),
        first_found_index(probes.take(n)) >= 0,
    ensures
        first_found_index(probes) == first_found_index(probes.take(n)),
    decreases probes.len() - n,
{
    if n < probes.len() {
        assert(probes.take(n + 1).drop_last() =~= probes.take(n));
        lemma_first_found_prefix(probes, n + 1);
    } else {
        assert(probes.take(n) =~= probes);
    }
}

/// What probing for a command found: the path `which` printed, else the
/// command itself when `cmd --version` could be started, else nothing.
pub open spec fn probe_outcome_spec(which: Option<Seq<char>>, version_spawned: bool, cmd: Seq<char>) -> (bool, Seq<char>) {
    match which {
        Some(p) => (true, p),
        None => if version_spawned { (true, cmd) } else { (false, Seq::empty()) },
    }
}

/// What probing for a command found (see [`probe_outcome_spec`]); `which`:
/// what `which cmd` printed, trimmed, when it succeeded and printed
/// something; `version_spawned`: whether `cmd --version` could be started
/// (tried only when `which` found nothing).
pub fn integration_probe_outcome(which: Option<String>, version_spawned: bool, cmd: &str) -> (r: (bool, String))
    ensures
        (r.0, r.1@) == probe_outcome_spec(
            match which {
                Some(p) => Some(p@),
                None => None,
            },
            version_spawned,
            cmd@,
        ),
{
    match which {
        Some(p) => (true, p),
        None => if version_spawned {
            (true, cmd.to_string())
        } else {
            (false, String::new())
        },
    }
}

/// The 7-Zip commands, in the order they are tried.
pub fn seven_zip_commands() -> (r: Vec<&'static str>)
    ensures
        r@.len() == 3,
        r@[0]@ == "7z"@ && r@[1]@ == "7zz"@ && r@[2]@ == "7zr"@,
{
    let mut v: Vec<&'static str> = Vec::new();
    v.push("7z");
    v.push("7zz");
    v.push("7zr");
    v
}

/// The RAR commands, in the order they are tried.
pub fn rar_commands() -> (r: Vec<&'static str>)
    ensures
        r@.len() == 2,
        r@[0]@ == "unrar"@ && r@[1]@ == "rar"@,
{
    let mut v: Vec<&'static str> = Vec::new();
    v.push("unrar");
    v.push("rar");
    v
}

/// The bat commands, in the order they are tried.
pub fn bat_commands() -> (r: Vec<&'static str>)
    ensures
        r@.len() == 2,
        r@[0]@ == "bat"@ && r@[1]@ == "batcat"@,
{
    let mut v: Vec<&'static str> = Vec::new();
    v.push("bat");
    v.push("batcat");
    v
}

/// The 7-Zip tool to use: the path of the first of [`seven_zip_commands`]
/// whose probe (`probes[i]`, found and path) succeeded.
pub fn seven_zip_tool(probes: &Vec<(bool, String)>) -> (r: Option<String>)
    ensures
        match r {
            Some(p) => first_found_spec(probes@) == Some(p@),
            None => first_found_spec(probes@).is_none(),
        },
{
    first_found(probes)
}

/// The RAR tool to use: the first of [`rar_commands`] found.
pub fn rar_tool(probes: &Vec<(bool, String)>) -> (r: Option<String>)
    ensures
        match r {
            Some(p) => first_found_spec(probes@) == Some(p@),
            None => first_found_spec(probes@).is_none(),
        },
{
    first_found(probes)
}

/// The bat command to use: the first of [`bat_commands`] found.
pub fn bat_tool(probes: &Vec<(bool, String)>) -> (r: Option<String>)
    ensures
        match r {
            Some(p) => first_found_spec(probes@) == Some(p@),
            None => first_found_spec(probes@).is_none(),
        },
{
    first_found(probes)
}


/// The command that stands for `$EDITOR`: its value, or `nano` when unset.
pub open spec fn editor_command_spec(editor_var: Option<String>) -> Seq<char> {
    match editor_var {
        Some(e) => e@,
        None => "nano"@,
    }
}

/// The commands whose presence decides whether an integration is available,
/// in the order their probes are handed to [`integration_support_and_detail`].
pub open spec fn probe_plan_spec(key: Seq<char>, editor_var: Option<String>) -> Seq<Seq<char>> {
    if key == "$EDITOR"@ {
        seq![editor_command_spec(editor_var)]
    } else if key == "zip"@ {
        seq!["zip"@, "unzip"@]
    } else if key == "sox"@ {
        seq!["play"@, "sox"@]
    } else if key == "bat"@ {
        seq!["bat"@, "batcat"@]
    } else if key == "7z"@ {
        seq!["7z"@, "7zz"@, "7zr"@]
    } else if key == "rar"@ {
        seq!["unrar"@, "rar"@]
    } else if key == "image-native"@ {
        Seq::empty()
    } else {
        seq![key]
    }
}

/// The commands to probe for an integration.
pub fn integration_probe_plan(key: &str, editor_var: &Option<String>) -> (r: Vec<String>)
    ensures
        r@.map_values(|x: String| x@) == probe_plan_spec(key@, *editor_var),
{
    let mut v: Vec<String> = Vec::new();
    if str_eq(key, "$EDITOR") {
        match editor_var {
            Some(e) => v.push(e.clone()),
            None => v.push("nano".to_owned()),
        }
    } else if str_eq(key, "zip") {
        v.push("zip".to_owned());
        v.push("unzip".to_owned());
    } else if str_eq(key, "sox") {
        v.push("play".to_owned());
        v.push("sox".to_owned());
    } else if str_eq(key, "bat") {
        v.push("bat".to_owned());
        v.push("batcat".to_owned());
    } else if str_eq(key, "7z") {
        v.push("7z".to_owned());
        v.push("7zz".to_owned());
        v.push("7zr".to_owned());
    } else if str_eq(key, "rar") {
        v.push("unrar".to_owned());
        v.push("rar".to_owned());
    } else if str_eq(key, "image-native") {
    } else {
        v.push(key.to_owned());
    }
    assert(v@.map_values(|x: String| x@) =~= probe_plan_spec(key@, *editor_var));
    v
}

/// Availability of an integration, whether a fallback covers it in part, and
/// the detail shown, from the probes of its [`probe_plan_spec`] commands (in
/// that order) and the detected image protocol.
pub open spec fn support_spec(
    key: Seq<char>,
    editor_var: Option<String>,
    probes: Seq<(bool, String)>,
    protocol: (TerminalImageProtocol, Seq<char>),
) -> (bool, bool, Seq<char>) {
    if key == "$EDITOR"@ {
        if probes[0].0 {
            (true, false, probes[0].1@)
        } else {
            (false, false, "$EDITOR="@ + match editor_var {
                Some(e) => e@,
                None => "(not set)"@,
            })
        }
    } else if key == "zip"@ {
        let detail = if probes[0].0 && probes[1].0 {
            probes[0].1@ + " | "@ + probes[1].1@
        } else if probes[0].0 {
            probes[0].1@
        } else if probes[1].0 {
            probes[1].1@
        } else {
            Seq::empty()
        };
        (probes[0].0 || probes[1].0, false, detail)
    } else if key == "sox"@ {
        let detail = if probes[0].0 {
            probes[0].1@
        } else if probes[1].0 {
            probes[1].1@
        } else {
            Seq::empty()
        };
        (probes[0].0 || probes[1].0, false, detail)
    } else if key == "bat"@ || key == "7z"@ || key == "rar"@ {
        match first_found_spec(probes) {
            Some(p) => (true, false, p),
            None => (false, false, Seq::empty()),
        }
    } else if key == "image-native"@ {
        if protocol.0 != TerminalImageProtocol::Unsupported {
            (true, false, protocol.1)
        } else {
            (false, true, "no native protocol detected (halfblock fallback available)"@)
        }
    } else {
        (probes[0].0, false, probes[0].1@)
    }
}

/// Availability, partial support and detail of an integration (see
/// [`support_spec`]); `probes[i]` is the probe of the `i`-th planned command.
pub fn integration_support_and_detail(
    key: &str,
    editor_var: &Option<String>,
    probes: &Vec<(bool, String)>,
    protocol: &(TerminalImageProtocol, String),
) -> (r: (bool, bool, String))
    requires
        probes@.len() == probe_plan_spec(key@, *editor_var).len(),
    ensures
        (r.0, r.1, r.2@) == support_spec(key@, *editor_var, probes@, (protocol.0, protocol.1@)),
{
    if str_eq(key, "$EDITOR") {
        if probes[0].0 {
            (true, false, probes[0].1.clone())
        } else {
            let shown = match editor_var {
                Some(e) => e.clone(),
                None => "(not set)".to_owned(),
            };
            (false, false, concat_str("$EDITOR=", shown.as_str()))
        }
    } else if str_eq(key, "zip") {
        let detail = if probes[0].0 && probes[1].0 {
            let a = concat_str(probes[0].1.as_str(), " | ");
            concat_str(a.as_str(), probes[1].1.as_str())
        } else if probes[0].0 {
            probes[0].1.clone()
        } else if probes[1].0 {
            probes[1].1.clone()
        } else {
            String::new()
        };
        (probes[0].0 || probes[1].0, false, detail)
    } else if str_eq(key, "sox") {
        let detail = if probes[0].0 {
            probes[0].1.clone()
        } else if probes[1].0 {
            probes[1].1.clone()
        } else {
            String::new()
        };
        (probes[0].0 || probes[1].0, false, detail)
    } else if str_eq(key, "bat") || str_eq(key, "7z") || str_eq(key, "rar") {
        match first_found(probes) {
            Some(p) => (true, false, p),
            None => (false, false, String::new()),
        }
    } else if str_eq(key, "image-native") {
        if protocol.0 != TerminalImageProtocol::Unsupported {
            (true, false, protocol.1.clone())
        } else {
            (false, true, "no native protocol detected (halfblock fallback available)".to_owned())
        }
    } else {
        (probes[0].0, false, probes[0].1.clone())
    }
}

/// Availability and detail of an integration (see [`support_spec`]).
pub fn integration_availability_and_detail(
    key: &str,
    editor_var: &Option<String>,
    probes: &Vec<(bool, String)>,
    protocol: &(TerminalImageProtocol, String),
) -> (r: (bool, String))
    requires
        probes@.len() == probe_plan_spec(key@, *editor_var).len(),
    ensures
        ({
            let s = support_spec(key@, *editor_var, probes@, (protocol.0, protocol.1@));
            r.0 == s.0 && r.1@ == s.2
        }),
{
    let (available, _, detail) = integration_support_and_detail(key, editor_var, probes, protocol);
    (available, detail)
}

} // verus!
