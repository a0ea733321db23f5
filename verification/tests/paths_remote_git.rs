use sbrs_core::git::{
    commit_push_status, first_failure, git_commit_and_push_steps, git_tag_and_push_steps, is_yes_answer,
    parse_git_commit_message, tag_prefill, tag_push_status, trimmed_output, CommandResult, GitInfoProbe,
    GitProbeAction,
};
use sbrs_core::paths::{
    current_dir_display_path, current_remote_mount, mount_to_leave, parse_path_filter_suffix, path_filter_suffix_text,
    path_with_filter_suffix, resolve_input_path, PathFilterMode, PathInputFilter, RemoteMountView,
};
use sbrs_core::remote::{parse_local_mount_dirs, parse_rclone_remotes, parse_ssh_config, FoundMount, RemoteEntry};

#[test]
fn filter_suffix_texts() {
    let f = PathInputFilter { mode: PathFilterMode::Prefix, pattern: "ab".to_string() };
    assert_eq!(path_filter_suffix_text(Some(&f)), Some("^ab".to_string()));
    let f = PathInputFilter { mode: PathFilterMode::Suffix, pattern: "rs".to_string() };
    assert_eq!(path_filter_suffix_text(Some(&f)), Some("rs$".to_string()));
    let f = PathInputFilter { mode: PathFilterMode::Contains, pattern: "x".to_string() };
    assert_eq!(path_filter_suffix_text(Some(&f)), Some("~x".to_string()));
    assert_eq!(path_filter_suffix_text(None), None);
}

#[test]
fn filter_suffix_joins_after_path() {
    assert_eq!(path_with_filter_suffix("/".to_string(), Some("^a".to_string())), "/^a");
    assert_eq!(path_with_filter_suffix("/home".to_string(), Some("x$".to_string())), "/home/x$");
    assert_eq!(path_with_filter_suffix("/home".to_string(), None), "/home");
}

#[test]
fn parse_filter_suffix_forms() {
    let (base, f) = parse_path_filter_suffix("/home/^ab").unwrap();
    assert_eq!((base.as_str(), f.mode, f.pattern.as_str()), ("/home", PathFilterMode::Prefix, "ab"));
    let (base, f) = parse_path_filter_suffix("  /^ab ").unwrap();
    assert_eq!((base.as_str(), f.mode, f.pattern.as_str()), ("/", PathFilterMode::Prefix, "ab"));
    let (base, f) = parse_path_filter_suffix("dir/x$").unwrap();
    assert_eq!((base.as_str(), f.mode, f.pattern.as_str()), ("dir", PathFilterMode::Suffix, "x"));
    let (base, f) = parse_path_filter_suffix("a/~b").unwrap();
    assert_eq!((base.as_str(), f.mode, f.pattern.as_str()), ("a", PathFilterMode::Contains, "b"));
    assert!(parse_path_filter_suffix("dir/").is_none());
    assert!(parse_path_filter_suffix("dir/x").is_none());
    assert!(parse_path_filter_suffix("nofilter").is_none());
}

#[test]
fn filter_written_after_path_reads_back() {
    for (base, mode, pat) in [
        ("/", PathFilterMode::Prefix, "ab"),
        ("/srv/data", PathFilterMode::Suffix, "log"),
        ("rel/dir", PathFilterMode::Contains, "mid"),
    ] {
        let f = PathInputFilter { mode, pattern: pat.to_string() };
        let text = path_with_filter_suffix(base.to_string(), path_filter_suffix_text(Some(&f)));
        let (b, g) = parse_path_filter_suffix(&text).unwrap();
        assert_eq!((b.as_str(), g.mode, g.pattern.as_str()), (base, mode, pat));
    }
}

#[test]
fn resolve_typed_paths() {
    assert_eq!(resolve_input_path(" ~/docs ", Some("/home/u"), "/cwd"), "/home/u/docs");
    assert_eq!(resolve_input_path("~", Some("/home/u"), "/cwd"), "/home/u");
    assert_eq!(resolve_input_path("/abs/x", Some("/home/u"), "/cwd"), "/abs/x");
    assert_eq!(resolve_input_path("rel", None, "/cwd"), "/cwd/rel");
    assert_eq!(resolve_input_path("~/x", None, "/cwd"), "/cwd/~/x");
}

#[test]
fn display_paths_use_home_and_mounts() {
    assert_eq!(current_dir_display_path("/home/u", Some("/home/u"), None), "~");
    assert_eq!(current_dir_display_path("/home/u/docs", Some("/home/u"), None), "~/docs");
    assert_eq!(current_dir_display_path("/home/user2", Some("/home/u"), None), "/home/user2");
    assert_eq!(current_dir_display_path("/tmp/m/a/b", None, Some(("/tmp/m", "~"))), "~/a/b");
    assert_eq!(current_dir_display_path("/tmp/m/a/b", None, Some(("/tmp/m", "/"))), "/a/b");
    assert_eq!(current_dir_display_path("/tmp/m/a", None, Some(("/tmp/m", "/srv/"))), "/srv/a");
    assert_eq!(current_dir_display_path("/tmp/m", None, Some(("/tmp/m", "~"))), "~");
}

#[test]
fn deepest_mount_holds_the_directory() {
    let m = |p: &str| RemoteMountView { mount_path: p.to_string(), remote_root: "~".to_string(), remote_label: "h".to_string() };
    let mounts = vec![m("/tmp/m"), m("/tmp/m/a"), m("/other")];
    assert_eq!(current_remote_mount("/tmp/m/a/b", &mounts), Some(1));
    assert_eq!(current_remote_mount("/tmp/mx", &mounts), None);
    assert_eq!(current_remote_mount("/tmp/m", &mounts), Some(0));
}

#[test]
fn ssh_config_hosts() {
    let cfg = "# comment\nHost *\n  User nobody\nHost web web2\n  HostName example.com\n  User alice\n  Port 2222\n  IdentityFile ~/.ssh/id\nHost=db\n  port=70000\nMatch all\n  User ignored\nHost *.x ok\n";
    let hosts = parse_ssh_config(cfg);
    assert_eq!(hosts.len(), 3);
    assert_eq!(hosts[0].alias, "web");
    assert_eq!(hosts[0].hostname, "example.com");
    assert_eq!(hosts[0].user, Some("alice".to_string()));
    assert_eq!(hosts[0].port, Some(2222));
    assert_eq!(hosts[0].identity_file, Some("~/.ssh/id".to_string()));
    assert_eq!(hosts[1].alias, "db");
    assert_eq!(hosts[1].hostname, "db");
    assert_eq!(hosts[1].port, None);
    assert_eq!(hosts[1].user, None);
    assert_eq!(hosts[2].alias, "ok");
}

#[test]
fn rclone_remote_lines() {
    let r = parse_rclone_remotes("gdrive:   drive\n:nope\ns3: s3\n\nplain\n");
    let got: Vec<(String, String)> = r.into_iter().map(|x| (x.name, x.rtype)).collect();
    assert_eq!(
        got,
        vec![
            ("gdrive".to_string(), "drive".to_string()),
            ("s3".to_string(), "s3".to_string()),
            ("plain".to_string(), String::new()),
        ]
    );
}

#[test]
fn local_mounts_once_each_in_name_order() {
    let f = |s: &str, c: &str, p: &str| FoundMount { source: s.to_string(), child_name: c.to_string(), path: p.to_string() };
    let found = vec![f("mnt", "b", "/mnt/b"), f("media", "a", "/media/u/a"), f("mnt", "b2", "/mnt/b")];
    let entries = parse_local_mount_dirs(&found);
    let names: Vec<String> = entries.iter().map(|e| e.alias().to_string()).collect();
    assert_eq!(names, vec!["media:a".to_string(), "mnt:b".to_string()]);
    match &entries[1] {
        RemoteEntry::LocalMount { mount_path, source, .. } => {
            assert_eq!(mount_path, "/mnt/b");
            assert_eq!(source, "mnt");
        }
        _ => panic!("expected a local mount"),
    }
}

#[test]
fn commit_message_amend_flag() {
    assert_eq!(parse_git_commit_message("  fix  bug --amend now "), ("fix bug now".to_string(), true));
    assert_eq!(parse_git_commit_message("--amend"), (String::new(), true));
    assert_eq!(parse_git_commit_message("a"), ("a".to_string(), false));
}

#[test]
fn command_output_helpers() {
    assert_eq!(trimmed_output(true, " main\n"), Some("main".to_string()));
    assert_eq!(trimmed_output(false, "main"), None);
    assert_eq!(trimmed_output(true, "  \n"), None);
    assert_eq!(tag_prefill(None), "v0.1.0");
    assert_eq!(tag_prefill(Some("v2".to_string())), "v2");
    assert!(is_yes_answer(" YeS\n"));
    assert!(is_yes_answer("y"));
    assert!(!is_yes_answer("no"));
}

#[test]
fn commit_and_push_steps() {
    let steps = git_commit_and_push_steps("msg", true);
    let args: Vec<Vec<String>> = steps.iter().map(|s| s.args.clone()).collect();
    assert_eq!(
        args,
        vec![
            vec!["add".to_string(), "--all".to_string()],
            vec!["commit".to_string(), "-m".to_string(), "msg".to_string(), "--amend".to_string()],
            vec!["push".to_string(), "origin".to_string(), "HEAD".to_string(), "-f".to_string()],
        ]
    );
    assert_eq!(steps[1].echo, "$ git commit -m \"msg\" --amend");
    assert_eq!(first_failure(&steps, &vec![true, false]), Some("git commit --amend failed".to_string()));
    assert_eq!(first_failure(&steps, &vec![true, true, true]), None);
    assert_eq!(commit_push_status(None, true), "amend commit pushed with -f");
    assert_eq!(commit_push_status(None, false), "commit pushed");
    let plain = git_commit_and_push_steps("m", false);
    assert_eq!(plain[2].args, vec!["push".to_string(), "origin".to_string(), "HEAD".to_string()]);
    assert_eq!(plain[1].failure, "git commit failed");
}

#[test]
fn tag_steps_and_status() {
    let steps = git_tag_and_push_steps("v1");
    assert_eq!(steps[0].args, vec!["tag".to_string(), "v1".to_string()]);
    assert_eq!(steps[1].echo, "$ git push origin v1");
    assert_eq!(first_failure(&steps, &vec![false]), Some("git tag failed".to_string()));
    assert_eq!(tag_push_status(None, "v1"), "tag pushed: v1");
}

fn out(success: bool, code: Option<i32>, stdout: &str) -> CommandResult {
    CommandResult { spawned: true, success, code, stdout: stdout.to_string() }
}

fn args_of(a: &GitProbeAction) -> Vec<String> {
    match a {
        GitProbeAction::RunForOutput(v) | GitProbeAction::RunForStatus(v) => v.clone(),
        GitProbeAction::Finished(_) => Vec::new(),
    }
}

#[test]
fn git_probe_gathers_branch_dirty_and_tag() {
    let (mut p, a) = GitInfoProbe::new("/repo");
    assert_eq!(args_of(&a), vec!["-C", "/repo", "symbolic-ref", "--short", "-q", "HEAD"]);
    let a = p.on_result(&out(true, Some(0), "main\n"));
    assert!(matches!(a, GitProbeAction::RunForStatus(_)));
    assert_eq!(args_of(&a), vec!["-C", "/repo", "diff-index", "--quiet", "HEAD", "--"]);
    let a = p.on_result(&out(false, Some(1), ""));
    assert_eq!(args_of(&a)[2], "for-each-ref");
    let a = p.on_result(&out(true, Some(0), "v1.2.0\n"));
    assert_eq!(args_of(&a), vec!["-C", "/repo", "rev-list", "--count", "v1.2.0..HEAD"]);
    match p.on_result(&out(true, Some(0), "3\n")) {
        GitProbeAction::Finished(Some(info)) => {
            assert_eq!(info.branch, "main");
            assert!(info.dirty);
            assert_eq!(info.tag, Some(("v1.2.0".to_string(), 3)));
        }
        _ => panic!("expected git info"),
    }
}

#[test]
fn git_probe_without_branch_or_with_bad_status_gives_nothing() {
    let (mut p, _) = GitInfoProbe::new("/repo");
    let a = p.on_result(&out(false, Some(128), ""));
    assert_eq!(args_of(&a), vec!["-C", "/repo", "rev-parse", "--short", "HEAD"]);
    assert!(matches!(p.on_result(&out(false, Some(128), "")), GitProbeAction::Finished(None)));
    let (mut q, _) = GitInfoProbe::new("/repo");
    q.on_result(&out(true, Some(0), "abc123"));
    assert!(matches!(q.on_result(&out(false, Some(2), "")), GitProbeAction::Finished(None)));
}

#[test]
fn git_probe_without_tags_or_with_unreadable_count() {
    let (mut p, _) = GitInfoProbe::new("/r");
    p.on_result(&out(true, Some(0), "dev"));
    p.on_result(&out(true, Some(0), ""));
    match p.on_result(&out(true, Some(0), "")) {
        GitProbeAction::Finished(Some(info)) => {
            assert_eq!(info.branch, "dev");
            assert!(!info.dirty);
            assert_eq!(info.tag, None);
        }
        _ => panic!("expected git info"),
    }
    let (mut q, _) = GitInfoProbe::new("/r");
    q.on_result(&out(true, Some(0), "dev"));
    q.on_result(&out(true, Some(0), ""));
    q.on_result(&out(true, Some(0), "t1"));
    match q.on_result(&out(true, Some(0), "x")) {
        GitProbeAction::Finished(Some(info)) => assert_eq!(info.tag, Some(("t1".to_string(), 0))),
        _ => panic!("expected git info"),
    }
}

#[test]
fn git_probe_finishes_within_five_answers() {
    for answer in [out(true, Some(0), "x\n"), out(true, Some(1), "x\n"), out(false, None, "")] {
        let (mut p, mut a) = GitInfoProbe::new("/repo");
        let mut answered = 0;
        while !matches!(a, GitProbeAction::Finished(_)) {
            a = p.on_result(&answer);
            answered += 1;
            assert!(answered <= 5);
        }
    }
}

#[test]
fn leaving_a_mount_uses_the_last_one_mounted_there() {
    let mounts = vec!["/tmp/a".to_string(), "/tmp/b".to_string(), "/tmp/a/".to_string()];
    assert_eq!(mount_to_leave("/tmp/a", &mounts), Some(2));
    assert_eq!(mount_to_leave("/tmp/b", &mounts), Some(1));
    assert_eq!(mount_to_leave("/tmp/a/sub", &mounts), None);
    assert_eq!(mount_to_leave("/tmp", &mounts), None);
    assert_eq!(mount_to_leave("/tmp/a", &Vec::new()), None);
}
