use sbrs_core::filetypes::{is_archivemount_archive, is_fuse_zip_archive};
use sbrs_core::input::InputLine;
use sbrs_core::integration::probe::{
    integration_probe_outcome, bat_tool, integration_availability_and_detail, integration_probe_plan, rar_tool, seven_zip_tool,
    terminal_image_protocol, TerminalEnv, TerminalImageProtocol,
};
use sbrs_core::integration::settings::{integration_active, IntegrationSettings};
use sbrs_core::overlay::{main_table_scrollbar_area, Area};
use sbrs_core::shell::{clipboard_paste_command, default_opener, open_with_default_status, rclone_mount_plan};
use sbrs_core::transfer::{begin_transfer_status, TransferStart};

fn env(term: &str, prog: &str, wt: bool) -> TerminalEnv {
    TerminalEnv {
        term: term.to_string(),
        term_program: prog.to_string(),
        kitty_window_id: false,
        konsole_version: false,
        ghostty_resources_dir: false,
        wt_session: wt,
    }
}

fn probe(found: bool, path: &str) -> (bool, String) {
    (found, path.to_string())
}

#[test]
fn image_protocol_from_the_environment() {
    assert_eq!(
        terminal_image_protocol(&env("xterm-kitty", "", false)),
        (TerminalImageProtocol::Kitty, "env-detected kitty protocol".to_string())
    );
    assert_eq!(
        terminal_image_protocol(&env("xterm-256color", "WezTerm", false)),
        (TerminalImageProtocol::Iterm2Inline, "env-detected iTerm2 inline protocol".to_string())
    );
    assert_eq!(
        terminal_image_protocol(&env("xterm", "", true)),
        (TerminalImageProtocol::Sixel, "env-detected sixel protocol".to_string())
    );
    assert_eq!(
        terminal_image_protocol(&env("xterm", "Apple_Terminal", false)),
        (TerminalImageProtocol::Unsupported, "no known image protocol detected".to_string())
    );
}

#[test]
fn first_tool_found_wins() {
    let probes = vec![probe(false, ""), probe(true, "/usr/bin/7zz"), probe(true, "/usr/bin/7zr")];
    assert_eq!(seven_zip_tool(&probes), Some("/usr/bin/7zz".to_string()));
    assert_eq!(rar_tool(&vec![probe(false, ""), probe(false, "")]), None);
    assert_eq!(bat_tool(&vec![probe(true, "/usr/bin/bat"), probe(true, "/usr/bin/batcat")]), Some("/usr/bin/bat".to_string()));
}

#[test]
fn integration_probes() {
    assert_eq!(integration_probe_plan("$EDITOR", &None), vec!["nano".to_string()]);
    assert_eq!(integration_probe_plan("$EDITOR", &Some("vim".to_string())), vec!["vim".to_string()]);
    assert_eq!(integration_probe_plan("zip", &None), vec!["zip".to_string(), "unzip".to_string()]);
    assert_eq!(integration_probe_plan("image-native", &None), Vec::<String>::new());
    assert_eq!(integration_probe_plan("fzf", &None), vec!["fzf".to_string()]);
    let none = (TerminalImageProtocol::Unsupported, "no known image protocol detected".to_string());
    assert_eq!(
        integration_availability_and_detail("zip", &None, &vec![probe(true, "/z"), probe(true, "/u")], &none),
        (true, "/z | /u".to_string())
    );
    assert_eq!(
        integration_availability_and_detail("image-native", &None, &Vec::new(), &none),
        (false, "no native protocol detected (halfblock fallback available)".to_string())
    );
    assert_eq!(
        integration_availability_and_detail("$EDITOR", &Some("vim".to_string()), &vec![probe(false, "")], &none),
        (false, "$EDITOR=vim".to_string())
    );
    assert_eq!(
        integration_availability_and_detail("fzf", &None, &vec![probe(true, "/usr/bin/fzf")], &none),
        (true, "/usr/bin/fzf".to_string())
    );
}

#[test]
fn integration_in_use() {
    let mut settings = IntegrationSettings::new();
    assert!(integration_active(&settings, "bat", true));
    assert!(!integration_active(&settings, "bat", false));
    settings.set_integration_enabled("bat", false);
    assert!(!integration_active(&settings, "bat", true));
}

#[test]
fn archive_browsers() {
    assert!(is_fuse_zip_archive("a.zip", false));
    assert!(!is_fuse_zip_archive("a.tar.gz", false));
    assert!(is_archivemount_archive("a.tar.gz", false));
    assert!(is_archivemount_archive("a.zip", false));
    assert!(!is_archivemount_archive("a.7z", false));
}

#[test]
fn input_line_edits() {
    let mut line = InputLine::new("abc");
    line.set_text("xy");
    assert_eq!(line.text(), "xy");
    assert_eq!(line.cursor(), 3);
    line.move_home();
    line.move_right();
    assert_eq!(line.cursor(), 1);
    line.move_right();
    line.move_right();
    assert_eq!(line.cursor(), 2);
    line.clear();
    assert_eq!(line.text(), "");
    assert_eq!(line.cursor(), 0);
}

#[test]
fn listing_scrollbar_column() {
    let area = Area { x: 0, y: 0, width: 120, height: 40 };
    assert_eq!(
        main_table_scrollbar_area(area, true, false, 100),
        Some(Area { x: 119, y: 2, width: 1, height: 36 })
    );
    assert_eq!(main_table_scrollbar_area(area, true, false, 10), None);
    assert_eq!(main_table_scrollbar_area(area, false, false, 100), None);
}

#[test]
fn transfer_refusals() {
    assert_eq!(begin_transfer_status(TransferStart::CopyRunning), "copy already in progress");
    assert_eq!(begin_transfer_status(TransferStart::ClipboardEmpty), "clipboard is empty");
    assert_eq!(begin_transfer_status(TransferStart::Start), "");
}

#[test]
fn rclone_mount_arguments() {
    let (dir, args) = rclone_mount_plan("gdrive");
    assert_eq!(dir, "/tmp/sbrs_rclone_gdrive");
    assert_eq!(
        args,
        vec!["mount", "gdrive:", "/tmp/sbrs_rclone_gdrive", "--daemon", "--vfs-cache-mode", "writes"]
            .into_iter()
            .map(String::from)
            .collect::<Vec<String>>()
    );
}

#[test]
fn probe_outcomes() {
    assert_eq!(integration_probe_outcome(Some("/usr/bin/rg".to_string()), false, "rg"), (true, "/usr/bin/rg".to_string()));
    assert_eq!(integration_probe_outcome(None, true, "rg"), (true, "rg".to_string()));
    assert_eq!(integration_probe_outcome(None, false, "rg"), (false, String::new()));
}

#[test]
fn default_application_opener() {
    assert_eq!(default_opener(true, true), Some(("xdg-open".to_string(), Vec::new())));
    assert_eq!(default_opener(false, true), Some(("gio".to_string(), vec!["open".to_string()])));
    assert_eq!(default_opener(false, false), None);
    assert_eq!(open_with_default_status(Some("a.pdf"), true), "opened with default app: a.pdf");
    assert_eq!(open_with_default_status(Some("a.pdf"), false), "no default opener found (tried xdg-open, gio open)");
    assert_eq!(open_with_default_status(None, true), "no selected item");
}

#[test]
fn clipboard_paste_commands() {
    let v = |xs: &[&str]| xs.iter().map(|x| x.to_string()).collect::<Vec<String>>();
    assert_eq!(clipboard_paste_command("wl-copy"), Some(("wl-paste".to_string(), v(&[]), true)));
    assert_eq!(clipboard_paste_command("xclip"), Some(("xclip".to_string(), v(&["-selection", "clipboard", "-out"]), false)));
    assert_eq!(clipboard_paste_command("xsel"), Some(("xsel".to_string(), v(&["--clipboard", "--output"]), false)));
    assert_eq!(clipboard_paste_command("pbcopy"), Some(("pbpaste".to_string(), v(&[]), true)));
    assert_eq!(clipboard_paste_command("clip.exe"), None);
}
