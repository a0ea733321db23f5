use vstd::prelude::*;
use crate::integration::catalog::{brew_package_spec, integration_brew_package, str_eq};
use crate::integration::rows::IntegrationRow;
use crate::integration::settings::{is_required_spec, IntegrationSettings};
use crate::overlay::OverlayView;
use crate::paths::{join_path, path_join};
use crate::text::{concat_str, join_spec, join_strings};

verus! {

/// Where Homebrew may be installed when it is not on the `PATH`: the
/// Homebrew prefixes on macOS; on Linux the shared Linuxbrew prefix and,
/// with a home directory, the one under it.
pub open spec fn brew_candidates_spec(macos: bool, linux: bool, home: Option<Seq<char>>) -> Seq<Seq<char>> {
    let mac: Seq<Seq<char>> = if macos {
        seq!["/opt/homebrew/bin/brew"@, "/usr/local/bin/brew"@]
    } else {
        seq![]
    };
    if linux {
        let with_shared = mac.push("/home/linuxbrew/.linuxbrew/bin/brew"@);
        match home {
            Some(h) => with_shared.push(path_join(h, ".linuxbrew/bin/brew"@)),
            None => with_shared,
        }
    } else {
        mac
    }
}

fn push_string(v: &mut Vec<String>, s: String)
    ensures
        final(v)@.map_values(|x: String| x@) == old(v)@.map_values(|x: String| x@).push(s@),
{
    let ghost before = v@.map_values(|x: String| x@);
    let ghost sv = s@;
    v.push(s);
    assert(v@.map_values(|x: String| x@) =~= before.push(sv));
}

/// Where Homebrew may be installed (see [`brew_candidates_spec`]).
pub fn brew_candidates(macos: bool, linux: bool, home: Option<&str>) -> (r: Vec<String>)
    ensures
        r@.map_values(|x: String| x@) == brew_candidates_spec(macos, linux, match home {
            Some(h) => Some(h@),
            None => None,
        }),
{
    let mut v: Vec<String> = Vec::new();
    assert(v@.map_values(|x: String| x@) =~= Seq::<Seq<char>>::empty());
    if macos {
        push_string(&mut v, "/opt/homebrew/bin/brew".to_string());
        push_string(&mut v, "/usr/local/bin/brew".to_string());
    }
    if linux {
        push_string(&mut v, "/home/linuxbrew/.linuxbrew/bin/brew".to_string());
        match home {
            Some(h) => {
                push_string(&mut v, join_path(h, ".linuxbrew/bin/brew"));
            },
            None => {},
        }
    }
    v
}

/// The Homebrew to use: the one on the `PATH`, else the first candidate
/// that exists (`exists[i]` for candidate `i`).
pub fn brew_command_path(on_path: Option<String>, candidates: &Vec<String>, exists: &Vec<bool>) -> (r: Option<String>)
    requires
        exists.len() == candidates.len(),
    ensures
        match on_path {
            Some(p) => r == Some(p),
            None => match r {
                Some(c) => exists|i: int| 0 <= i < candidates@.len() && exists@[i] && candidates@[i]@ == c@
                    && forall|j: int| 0 <= j < i ==> !(#[trigger] exists@[j]),
                None => forall|j: int| 0 <= j < candidates@.len() ==> !(#[trigger] exists@[j]),
            },
        },
{
    match on_path {
        Some(p) => Some(p),
        None => {
            let mut i: usize = 0;
            while i < candidates.len()
                invariant
                    i <= candidates.len(),
                    exists.len() == candidates.len(),
                    on_path is None,
                    forall|j: int| 0 <= j < i ==> !(#[trigger] exists@[j]),
                decreases candidates.len() - i,
            {
                if exists[i] {
                    let c = candidates[i].clone();
                    assert(exists@[i as int] && candidates@[i as int]@ == c@);
                    assert(exists|k: int| 0 <= k < candidates@.len() && exists@[k] && candidates@[k]@ == c@
                        && forall|j: int| 0 <= j < k ==> !(#[trigger] exists@[j]));
                    return Some(c);
                }
                i = i + 1;
            }
            None
        },
    }
}

/// What asking to install the selected integration leads to.
pub enum InstallPrompt {
    /// The status to show instead of a prompt.
    Refused(String),
    /// Ask to install `package` for `key`.
    Confirm { key: String, package: String },
}

/// The decision on a request to install the selected row: refused when
/// there are no rows, the selection is past them, the row is the switch
/// for all integrations, the integration is required or already there,
/// or Homebrew has no package for it; else a prompt for its package.
pub open spec fn install_prompt_spec(rows: Seq<IntegrationRow>, selected: usize, macos: bool) -> Result<(Seq<char>, Seq<char>), Seq<char>> {
    if rows.len() == 0 {
        Err("no integration selected"@)
    } else if selected >= rows.len() {
        Err("invalid integration selection"@)
    } else {
        let row = rows[selected as int];
        if row.key@ == "__all_optional__"@ {
            Err("select a specific integration to install"@)
        } else if row.required {
            Err("required integration cannot be installed from here"@)
        } else if row.available {
            Err(row.label@ + " is already available"@)
        } else {
            match brew_package_spec(row.key@, macos) {
                None => Err("no brew package mapping for "@ + row.label@),
                Some(p) => Ok((row.key@, p)),
            }
        }
    }
}

/// The decision on a request to install the selected row (see
/// [`install_prompt_spec`]).
pub fn begin_integration_install_prompt_for_selected(rows: &Vec<IntegrationRow>, selected: usize, macos: bool) -> (r: InstallPrompt)
    ensures
        match r {
            InstallPrompt::Refused(s) => install_prompt_spec(rows@, selected, macos) == Err::<(Seq<char>, Seq<char>), Seq<char>>(s@),
            InstallPrompt::Confirm { key, package } => install_prompt_spec(rows@, selected, macos) == Ok::<(Seq<char>, Seq<char>), Seq<char>>((key@, package@)),
        },
{
    if rows.len() == 0 {
        return InstallPrompt::Refused("no integration selected".to_string());
    }
    if selected >= rows.len() {
        return InstallPrompt::Refused("invalid integration selection".to_string());
    }
    let row = &rows[selected];
    if str_eq(row.key.as_str(), "__all_optional__") {
        return InstallPrompt::Refused("select a specific integration to install".to_string());
    }
    if row.required {
        return InstallPrompt::Refused("required integration cannot be installed from here".to_string());
    }
    if row.available {
        return InstallPrompt::Refused(concat_str(row.label.as_str(), " is already available"));
    }
    match integration_brew_package(row.key.as_str(), macos) {
        None => InstallPrompt::Refused(concat_str("no brew package mapping for ", row.label.as_str())),
        Some(p) => InstallPrompt::Confirm { key: row.key.clone(), package: p.to_string() },
    }
}

/// The `brew` commands that install an integration: on macOS the macFUSE
/// cask first for the FUSE mounts, the tap first for `mmdflux`, then the
/// package.
pub open spec fn install_steps_spec(key: Seq<char>, package: Seq<char>, macos: bool) -> Seq<Seq<Seq<char>>> {
    let fuse: Seq<Seq<Seq<char>>> = if macos && (key == "archivemount"@ || key == "fuse-zip"@) {
        seq![seq!["install"@, "--cask"@, "macfuse"@]]
    } else {
        seq![]
    };
    let tap: Seq<Seq<Seq<char>>> = if key == "mmdflux"@ {
        fuse.push(seq!["tap"@, "kevinswiber/mmdflux"@])
    } else {
        fuse
    };
    tap.push(seq!["install"@, package])
}

/// The views of a list of argument lists.
pub open spec fn arg_lists(v: Seq<Vec<String>>) -> Seq<Seq<Seq<char>>> {
    v.map_values(|a: Vec<String>| a@.map_values(|x: String| x@))
}

fn arg_list(parts: &[&str]) -> (r: Vec<String>)
    ensures
        r@.map_values(|x: String| x@) == parts@.map_values(|x: &str| x@),
{
    let mut v: Vec<String> = Vec::new();
    let mut i: usize = 0;
    while i < parts.len()
        invariant
            i <= parts@.len(),
            v@.map_values(|x: String| x@) == parts@.take(i as int).map_values(|x: &str| x@),
        decreases parts@.len() - i,
    {
        push_string(&mut v, parts[i].to_string());
        assert(parts@.take(i + 1).map_values(|x: &str| x@) =~= parts@.take(i as int).map_values(|x: &str| x@).push(parts@[i as int]@));
        i = i + 1;
    }
    assert(parts@.take(parts@.len() as int) =~= parts@);
    v
}

/// The `brew` commands that install an integration (see
/// [`install_steps_spec`]); the caller runs them in order and stops at the
/// first that fails.
pub fn brew_install_steps(key: &str, package: &str, macos: bool) -> (r: Vec<Vec<String>>)
    ensures
        arg_lists(r@) == install_steps_spec(key@, package@, macos),
{
    let mut steps: Vec<Vec<String>> = Vec::new();
    let ghost mut model: Seq<Seq<Seq<char>>> = seq![];
    if macos && (str_eq(key, "archivemount") || str_eq(key, "fuse-zip")) {
        let a = arg_list(&["install", "--cask", "macfuse"]);
        assert(a@.map_values(|x: String| x@) =~= seq!["install"@, "--cask"@, "macfuse"@]);
        proof { model = model.push(a@.map_values(|x: String| x@)); }
        steps.push(a);
    }
    if str_eq(key, "mmdflux") {
        let a = arg_list(&["tap", "kevinswiber/mmdflux"]);
        assert(a@.map_values(|x: String| x@) =~= seq!["tap"@, "kevinswiber/mmdflux"@]);
        proof { model = model.push(a@.map_values(|x: String| x@)); }
        steps.push(a);
    }
    let a = arg_list(&["install", package]);
    assert(a@.map_values(|x: String| x@) =~= seq!["install"@, package@]);
    proof { model = model.push(a@.map_values(|x: String| x@)); }
    steps.push(a);
    assert(arg_lists(steps@) =~= model);
    assert(model =~= install_steps_spec(key@, package@, macos));
    steps
}

/// How an install step is shown: its arguments joined by spaces.
pub fn install_step_text(step: &Vec<String>) -> (r: String)
    ensures
        r@ == join_spec(step@.map_values(|x: String| x@), " "@),
{
    join_strings(step, " ")
}

/// The status after an install: which step failed, or that the package was
/// installed.
pub fn install_result_status(failed_step: Option<String>, package: &str) -> (r: String)
    ensures
        r@ == match failed_step {
            Some(s) => "brew install failed: "@ + s@,
            None => "installed "@ + package@ + " with brew"@,
        },
{
    match failed_step {
        Some(s) => concat_str("brew install failed: ", s.as_str()),
        None => {
            let a = concat_str("installed ", package);
            concat_str(a.as_str(), " with brew")
        },
    }
}

/// The install waiting for confirmation: the integration's key, its
/// package, and the `brew` found when it was proposed.
pub struct PendingInstall {
    pub key: Option<String>,
    pub package: Option<String>,
    pub brew_path: Option<String>,
}

/// How a confirmed install starts: without a pending key or package there
/// is nothing to install; without `brew` only the setup instructions are
/// shown; otherwise `brew` runs for the key and package.
#[derive(Debug)]
pub enum InstallStart {
    NoKey,
    NoPackage,
    NoBrew,
    Run { key: String, package: String, brew: String },
}

fn opt_view(o: &Option<String>) -> (r: Option<String>)
    ensures
        r == *o,
{
    match o {
        Some(s) => Some(s.clone()),
        None => None,
    }
}

/// How a confirmed install starts (see [`InstallStart`]).
pub fn install_start(p: &PendingInstall, found: Option<String>) -> (r: InstallStart)
    ensures
        p.key is None <==> r is NoKey,
        p.key is Some && p.package is None <==> r is NoPackage,
        p.key is Some && p.package is Some && p.brew_path is None && found is None <==> r is NoBrew,
        r matches InstallStart::Run { key, package, brew } ==> p.key == Some(key) && p.package == Some(package)
            && (if p.brew_path is Some { p.brew_path == Some(brew) } else { found == Some(brew) }),
{
    let key = match opt_view(&p.key) {
        Some(k) => k,
        None => return InstallStart::NoKey,
    };
    let package = match opt_view(&p.package) {
        Some(k) => k,
        None => return InstallStart::NoPackage,
    };
    let brew = match opt_view(&p.brew_path) {
        Some(b) => b,
        None => match found {
            Some(b) => b,
            None => return InstallStart::NoBrew,
        },
    };
    InstallStart::Run { key, package, brew }
}

/// The status shown when a confirmed install cannot run: nothing pending,
/// no package, or `brew` missing (the setup instructions are shown then).
pub fn install_start_status(s: &InstallStart) -> (r: Option<String>)
    ensures
        match s {
            InstallStart::NoKey => r matches Some(t) && t@ == "no pending integration install"@,
            InstallStart::NoPackage => r matches Some(t) && t@ == "no pending integration package"@,
            InstallStart::NoBrew => r matches Some(t) && t@ == "brew not found; setup instructions shown"@,
            InstallStart::Run { .. } => r is None,
        },
{
    match s {
        InstallStart::NoKey => Some("no pending integration install".to_string()),
        InstallStart::NoPackage => Some("no pending integration package".to_string()),
        InstallStart::NoBrew => Some("brew not found; setup instructions shown".to_string()),
        InstallStart::Run { .. } => None,
    }
}

/// After the install steps of `key`'s `package` ran (`failed_step`: the
/// text of the step that failed): on success the integration is switched
/// on; either way the pending install is cleared, the status says how it
/// went, and the integrations panel is shown again.
pub fn finish_integration_install(
    pending: &mut PendingInstall,
    settings: &mut IntegrationSettings,
    key: &str,
    package: &str,
    failed_step: Option<String>,
) -> (r: (String, OverlayView))
    ensures
        final(pending).key is None && final(pending).package is None && final(pending).brew_path is None,
        failed_step is Some ==> final(settings).view() == old(settings).view(),
        failed_step is None && is_required_spec(key@) ==> final(settings).view() == old(settings).view(),
        failed_step is None && !is_required_spec(key@) ==> final(settings).view() == old(settings).view().insert(key@, true),
        r.0@ == match failed_step {
            Some(s) => "brew install failed: "@ + s@,
            None => "installed "@ + package@ + " with brew"@,
        },
        r.1 == OverlayView::Integrations,
{
    if failed_step.is_none() {
        settings.set_integration_enabled(key, true);
    }
    pending.key = None;
    pending.package = None;
    pending.brew_path = None;
    (install_result_status(failed_step, package), OverlayView::Integrations)
}

} // verus!
