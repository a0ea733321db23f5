use sbrs_core::archive::{
    archive_listing_command, archive_listing_status, archive_name_from_input, can_extract_archive, extract_base, extract_command, extract_summary_status, file_stem,
    numbered_name, plan_zip_action, zip_base_name, zip_command_args, ZipActionPlan,
};
use sbrs_core::filetypes::{
    age_plain_output_name, age_protected_output_path, archive_kind, classify_file, has_zip_signature,
    is_binary_block, is_image_file, is_tar_like, protected_preview_viewer, view_mode_viewer, ArchiveKind,
    ToolAvailability, Viewer,
};
use sbrs_core::images::{
    avg_pixel, halfblock_cells, iterm2_inline_sequence, kitty_frames, kitty_image_frames, rgb_to_rgba, CellColor,
    HalfCell, HalfRow,
};
use sbrs_core::integration::install::{
    begin_integration_install_prompt_for_selected, brew_candidates, brew_command_path, brew_install_steps,
    install_result_status, install_step_text, InstallPrompt,
};
use sbrs_core::integration::rows::{build_integration_rows, IntegrationRow};
use sbrs_core::integration::catalog::integration_catalog;
use sbrs_core::integration::settings::{integration_count, is_required, IntegrationSettings};
use sbrs_core::meta::{
    create_entries_status, owner_label, parse_create_specs, parse_permissions, toggle_exec_status, toggled_exec_mode,
};
use sbrs_core::preview::{
    binary_preview_lines, display_flags, folder_preview_lines, preview_kind, raw_text_needed, text_preview_lines,
    PreviewEntry, PreviewKind,
};
use sbrs_core::shell::{
    clipboard_copy_backends, clipboard_copy_status, clipboard_payload, split_session_name, split_shell_plan,
    sshfs_mount_plan,
};
use sbrs_core::remote::SshHost;
use sbrs_core::sqlite::{
    env_flag_true, flag_value_true, preview_table_sql, sqlite_error_message, sqlite_list_tables, sqlite_query_args,
    sqlite_query_rows,
};
use sbrs_core::transfer::{begin_transfer_check, current_item_index, paste_item_name, transfer_finished_status, TransferStart};

fn s(v: &[&str]) -> Vec<String> {
    v.iter().map(|x| x.to_string()).collect()
}

#[test]
fn file_stems_and_extract_folders() {
    assert_eq!(file_stem("photos.tar.gz"), "photos.tar");
    assert_eq!(file_stem(".bashrc"), ".bashrc");
    assert_eq!(file_stem("noext"), "noext");
    assert_eq!(file_stem(".."), "..");
    assert_eq!(extract_base(Some("a.zip")), "a");
    assert_eq!(extract_base(None), "extracted");
    assert_eq!(extract_base(Some("")), "extracted");
}

#[test]
fn numbered_names_for_new_items() {
    assert_eq!(numbered_name("a", 1, ".zip"), "a.zip");
    assert_eq!(numbered_name("a", 2, ".zip"), "a-2.zip");
    assert_eq!(numbered_name("out", 12, ""), "out-12");
    assert_eq!(zip_base_name(&vec![Some("dir".to_string())]), "dir");
    assert_eq!(zip_base_name(&vec![Some("a".to_string()), Some("b".to_string())]), "archive");
    assert_eq!(zip_base_name(&vec![None]), "archive");
}

#[test]
fn archive_name_input() {
    assert_eq!(archive_name_from_input("  backup "), Some("backup.zip".to_string()));
    assert_eq!(archive_name_from_input("B.ZIP"), Some("B.ZIP".to_string()));
    assert_eq!(archive_name_from_input("   "), None);
}

#[test]
fn extract_commands_per_kind() {
    let c = extract_command(Some(ArchiveKind::Zip), "a.zip", "/d", None, None).unwrap();
    assert_eq!((c.program.as_str(), c.args.clone()), ("unzip", s(&["-q", "a.zip", "-d", "/d"])));
    let c = extract_command(Some(ArchiveKind::Tar), "a.tgz", "/d", None, None).unwrap();
    assert_eq!(c.args, s(&["-xf", "a.tgz", "-C", "/d"]));
    let c = extract_command(Some(ArchiveKind::SevenZip), "a.7z", "/d", Some("7zz"), None).unwrap();
    assert_eq!((c.program.as_str(), c.args.clone()), ("7zz", s(&["x", "-y", "-o/d", "a.7z"])));
    assert!(extract_command(Some(ArchiveKind::Rar), "a.rar", "/d", None, None).is_none());
    let c = extract_command(Some(ArchiveKind::Rar), "a.rar", "/d", None, Some("unrar")).unwrap();
    assert_eq!(c.args, s(&["x", "-o+", "a.rar", "/d"]));
    assert!(extract_command(None, "a", "/d", Some("7z"), Some("rar")).is_none());
}

#[test]
fn archive_statuses_and_plans() {
    assert_eq!(extract_summary_status(2, 0), "extracted 2 archive(s)");
    assert_eq!(extract_summary_status(1, 3), "extract finished: 1 ok, 3 failed");
    assert_eq!(zip_command_args("x.zip", &s(&["a", "b"])), s(&["-r", "x.zip", "a", "b"]));
    assert_eq!(plan_zip_action(false, 2, true, true, false), ZipActionPlan::ConfirmExtract);
    assert_eq!(plan_zip_action(false, 2, true, false, true), ZipActionPlan::MissingExtractor);
    assert_eq!(plan_zip_action(false, 2, false, false, false), ZipActionPlan::ZipMissing);
    assert_eq!(plan_zip_action(false, 0, false, false, true), ZipActionPlan::NoSelection);
    assert_eq!(plan_zip_action(true, 2, false, false, true), ZipActionPlan::Busy);
    assert_eq!(plan_zip_action(false, 1, false, false, true), ZipActionPlan::NameArchive);
    assert!(can_extract_archive(Some(ArchiveKind::Zip), true, true, false, false, false, false, false));
    assert!(!can_extract_archive(Some(ArchiveKind::SevenZip), true, true, true, true, false, true, true));
    assert!(!can_extract_archive(None, true, true, true, true, true, true, true));
}

#[test]
fn file_kinds() {
    assert!(is_image_file("Photo.JPG"));
    assert!(!is_image_file("photo"));
    assert_eq!(archive_kind("book.epub", false), Some(ArchiveKind::Zip));
    assert_eq!(archive_kind("noext", true), Some(ArchiveKind::Zip));
    assert_eq!(archive_kind("src.tar.gz", false), Some(ArchiveKind::Tar));
    assert_eq!(archive_kind("x.7Z", false), Some(ArchiveKind::SevenZip));
    assert_eq!(archive_kind("notes.txt", false), None);
    assert!(is_tar_like(&"A.TGZ".chars().collect()));
    assert!(has_zip_signature(&[0x50, 0x4b, 0x03, 0x04, 0]));
    assert!(!has_zip_signature(&[0x50, 0x4b]));
    assert!(is_binary_block(&[1, 0, 2]));
    assert!(!is_binary_block(b"text"));
    assert_eq!(age_protected_output_path("/x/a.txt"), "/x/a.txt.age");
    assert_eq!(age_plain_output_name("a.txt.age"), "a.txt");
    assert_eq!(age_plain_output_name("secret"), "secret.decrypted");
}

fn tools(viu: bool, bat: bool, hexyl: bool) -> ToolAvailability {
    ToolAvailability {
        viu,
        chafa: false,
        glow: false,
        mmdflux: false,
        links: false,
        jnv: false,
        csvlens: false,
        sox: false,
        asciinema: false,
        pdftotext: false,
        hexyl,
        bat,
    }
}

#[test]
fn viewers_follow_file_kind_and_tools() {
    let img = classify_file("a.png", false, false);
    assert_eq!(view_mode_viewer(img, tools(true, true, false), true), Viewer::Viu);
    assert_eq!(view_mode_viewer(img, tools(false, false, false), true), Viewer::Pager);
    assert_eq!(view_mode_viewer(img, tools(false, false, false), false), Viewer::Cat);
    let bin = classify_file("blob", false, true);
    assert_eq!(view_mode_viewer(bin, tools(false, true, true), true), Viewer::Hexyl);
    let arc = classify_file("a.zip", false, false);
    assert_eq!(protected_preview_viewer(arc, tools(false, true, false)), Viewer::ArchiveListing);
    assert_eq!(view_mode_viewer(arc, tools(false, true, false), true), Viewer::Bat);
}

#[test]
fn permissions_text_and_exec_toggle() {
    assert_eq!(parse_permissions(0o755, true), "drwxr-xr-x");
    assert_eq!(parse_permissions(0o640, false), "-rw-r-----");
    assert_eq!(toggled_exec_mode(0o644), 0o755);
    assert_eq!(toggled_exec_mode(0o744), 0o644);
    assert_eq!(toggled_exec_mode(toggled_exec_mode(0o600)), 0o600);
    assert_eq!(toggle_exec_status(2, 0, 0), "toggled executable bit on 2 file(s)");
    assert_eq!(toggle_exec_status(1, 2, 3), "toggled 1 file(s), skipped 2 dir(s), 3 failed");
    assert_eq!(toggle_exec_status(0, 1, 0), "no files changed (directories skipped)");
    assert_eq!(toggle_exec_status(0, 0, 1), "failed to toggle executable permissions");
    assert_eq!(owner_label(Some("root".to_string()), 0), "root");
    assert_eq!(owner_label(None, 1001), "1001");
}

#[test]
fn create_prompt_lines() {
    let specs = parse_create_specs(" a.txt \n/ docs \n\n/\nb", false);
    assert_eq!(specs, vec![("a.txt".to_string(), false), ("docs".to_string(), true), ("b".to_string(), false)]);
    assert_eq!(create_entries_status(0, 1, Some("target already exists".to_string())), "target already exists");
    assert_eq!(create_entries_status(0, 0, None), "create failed");
    assert_eq!(create_entries_status(2, 0, None), "created 2 item(s)");
    assert_eq!(create_entries_status(2, 1, None), "created 2 item(s), 1 failed");
}

#[test]
fn sqlite_output_parsing() {
    let rows = sqlite_query_rows("a\u{1f}b\n  \nc\n");
    assert_eq!(rows, vec![s(&["a", "b"]), s(&["c"])]);
    let tables = sqlite_list_tables(&vec![s(&["users"]), s(&["  "]), s(&["accounts", "x"]), s(&["users"]), vec![]]);
    assert_eq!(tables, s(&["accounts", "users"]));
    assert_eq!(sqlite_error_message("  \n"), "sqlite3 query failed");
    assert_eq!(sqlite_error_message(" no such table \n"), "sqlite3 query failed: no such table");
    assert_eq!(
        sqlite_query_args("/db", "SELECT 1;", false),
        s(&["-readonly", "-batch", "-separator", "\u{1f}", "-nullvalue", "NULL", "-noheader", "/db", "SELECT 1;"])
    );
    assert_eq!(preview_table_sql("my\"t", 8), "SELECT * FROM \"my\"\"t\" LIMIT 8;");
}

#[test]
fn environment_flags() {
    assert!(flag_value_true(" TRUE "));
    assert!(flag_value_true("1"));
    assert!(!flag_value_true("yes"));
    assert!(env_flag_true(&vec![None, Some("true".to_string()), Some("0".to_string())]));
    assert!(!env_flag_true(&vec![Some("0".to_string()), Some("1".to_string())]));
    assert!(!env_flag_true(&vec![None]));
    assert_eq!(display_flags(Some("1"), Some("0")), (true, false));
    assert_eq!(display_flags(None, None), (false, true));
}

#[test]
fn kitty_frames_split_the_payload() {
    let payload = "A".repeat(5000);
    let frames = kitty_frames(&payload, 10, 20, None);
    assert_eq!(frames.len(), 2);
    assert_eq!(frames[0], format!("\x1b_Ga=T,f=100,s=10,v=20,m=1;{}\x1b\\", "A".repeat(4096)));
    assert_eq!(frames[1], format!("\x1b_Gm=0;{}\x1b\\", "A".repeat(904)));
    let pane = kitty_frames("QUJD", 1, 2, Some((3, 4)));
    assert_eq!(pane, vec!["\x1b_Ga=T,f=100,s=1,v=2,c=3,r=4,m=0;QUJD\x1b\\".to_string()]);
    assert!(kitty_frames("", 1, 1, None).is_empty());
}

#[test]
fn image_escapes_carry_base64() {
    let frames = kitty_image_frames(b"ABC", 1, 1, None);
    assert_eq!(frames, vec!["\x1b_Ga=T,f=100,s=1,v=1,m=0;QUJD\x1b\\".to_string()]);
    assert_eq!(
        iterm2_inline_sequence(b"hi"),
        "\x1b]1337;File=inline=1;preserveAspectRatio=1;width=auto;height=auto:aGk=\x07"
    );
    assert_eq!(rgb_to_rgba(&[1, 2, 3, 4, 5, 6, 7]), vec![1, 2, 3, 255, 4, 5, 6, 255]);
}

#[test]
fn average_colour_of_a_cell() {
    let rgb = [10u8, 20, 30, 20, 40, 60, 30, 60, 90, 40, 80, 120];
    assert_eq!(avg_pixel(&rgb, 2, 2, 1, 1, 0, 0), CellColor::Rgb(25, 50, 75));
    assert_eq!(avg_pixel(&rgb, 2, 2, 2, 2, 1, 1), CellColor::Rgb(40, 80, 120));
    assert_eq!(avg_pixel(&rgb[..2], 2, 2, 1, 1, 0, 0), CellColor::Black);
}

#[test]
fn halfblock_picture_is_centred() {
    let rgb = [255u8, 0, 0, 0, 0, 255];
    let rows = halfblock_cells(&rgb, 1, 2, 3, 3, 1, 2);
    assert_eq!(rows.len(), 3);
    match &rows[0] {
        HalfRow::Padding => {}
        _ => panic!("first row is padding"),
    }
    match &rows[1] {
        HalfRow::Cells(cells) => {
            assert_eq!(cells.len(), 3);
            assert_eq!(cells[0], HalfCell::Space);
            assert_eq!(cells[1], HalfCell::Block { fg: CellColor::Rgb(255, 0, 0), bg: CellColor::Rgb(0, 0, 255) });
            assert_eq!(cells[2], HalfCell::Space);
        }
        _ => panic!("second row has cells"),
    }
    match &rows[2] {
        HalfRow::Padding => {}
        _ => panic!("last row is padding"),
    }
    assert!(halfblock_cells(&[], 1, 1, 3, 2, 1, 1).is_empty());
}

#[test]
fn preview_content_pieces() {
    assert_eq!(preview_kind(true, true, false, false, false, false), PreviewKind::Folder);
    assert_eq!(preview_kind(false, false, true, true, true, true), PreviewKind::Missing);
    assert_eq!(preview_kind(false, true, true, false, true, false), PreviewKind::Image);
    assert_eq!(preview_kind(false, true, false, false, false, true), PreviewKind::Binary);
    let e = |n: &str, d: bool, i: &str| PreviewEntry { name: n.to_string(), is_dir: d, icon: i.to_string() };
    let lines = folder_preview_lines(vec![e("b", false, "f"), e("A", true, "d"), e("c", false, "")], true);
    assert_eq!(lines, s(&["d A/", "f b", "c"]));
    assert_eq!(folder_preview_lines(Vec::new(), true), s(&["[empty folder]"]));
    assert_eq!(text_preview_lines(10, None, "x\ny\n"), s(&["x", "y"]));
    assert_eq!(text_preview_lines(10, Some(""), ""), s(&["[no preview output]"]));
    assert_eq!(text_preview_lines(20_000_000, None, "ignored"), s(&["[preview truncated: file larger than 10MB]"]));
    assert!(raw_text_needed(10, None));
    assert!(!raw_text_needed(10, Some("out")));
    assert!(!raw_text_needed(20_000_000, None));
    let many: String = (0..300).map(|i| format!("{}\n", i)).collect();
    assert_eq!(text_preview_lines(10, Some(&many), "").len(), 220);
    assert_eq!(binary_preview_lines(Some(" ELF 64-bit \n")), s(&["[binary file]", "ELF 64-bit"]));
    assert_eq!(binary_preview_lines(None), s(&["[binary file]"]));
}

#[test]
fn split_shell_and_sshfs_plans() {
    assert_eq!(split_session_name('E', 42, 1_234_567_890_123), "sbrs_E_42_567890123");
    let p = split_shell_plan("/bin/zsh", Some("vim"), "/d/it's.txt", "sess", "/d");
    assert_eq!(p.new_session, s(&["new-session", "-d", "-s", "sess", "-c", "/d", "'/bin/zsh' -i; tmux kill-session -t 'sess' >/dev/null 2>&1"]));
    assert_eq!(p.split_window[5], "sess:0");
    assert_eq!(p.split_window[8], "vim -- '/d/it'\"'\"'s.txt'");
    assert_eq!(p.select_pane, s(&["select-pane", "-t", "sess:0.0"]));
    let less = split_shell_plan("/bin/sh", None, "f", "s", "/");
    assert_eq!(less.split_window[8], "less -R -- 'f'");
    let host = SshHost {
        alias: "web".to_string(),
        hostname: "example.com".to_string(),
        user: Some("alice".to_string()),
        port: Some(2222),
        identity_file: Some("~/.ssh/id".to_string()),
    };
    let plan = sshfs_mount_plan(&host, "/home/u");
    assert_eq!(plan.mount_dir, "/tmp/sbrs_sshfs_web");
    assert_eq!(plan.args, s(&["-p", "2222", "-o", "IdentityFile=/home/u/.ssh/id", "alice@example.com:", "/tmp/sbrs_sshfs_web"]));
    assert_eq!(plan.remote_label, "alice@example.com");
}

#[test]
fn clipboard_pieces() {
    let b = clipboard_copy_backends();
    let names: Vec<&str> = b.iter().map(|x| x.name.as_str()).collect();
    assert_eq!(names, vec!["wl-copy", "xclip", "xsel", "pbcopy"]);
    assert_eq!(b[1].args, s(&["-selection", "clipboard"]));
    assert_eq!(clipboard_payload(&s(&["/a", "/b"])), "/a\n/b");
    assert_eq!(clipboard_copy_status(2, Some("xclip")), "copied 2 full path(s) to system clipboard via xclip");
    assert_eq!(clipboard_copy_status(2, None), "no clipboard backend available (wl-copy/xclip/xsel/pbcopy)");
}

#[test]
fn transfer_pieces() {
    assert_eq!(begin_transfer_check(0, false, false), TransferStart::ClipboardEmpty);
    assert_eq!(begin_transfer_check(1, true, false), TransferStart::ArchiveRunning);
    assert_eq!(begin_transfer_check(1, false, true), TransferStart::CopyRunning);
    assert_eq!(begin_transfer_check(1, false, false), TransferStart::Start);
    assert_eq!(paste_item_name(None), "pasted_item");
    assert_eq!(transfer_finished_status(3, 0, 3), "transfer complete: 3 item");
    assert_eq!(transfer_finished_status(0, 0, 0), "nothing to transfer");
    assert_eq!(transfer_finished_status(1, 2, 3), "transfer finished: 1 ok, 2 failed (3 total)");
    assert_eq!(current_item_index(1, 1, 5), 3);
    assert_eq!(current_item_index(5, 0, 5), 5);
    assert_eq!(current_item_index(0, 0, 0), 1);
}

fn row(key: &str, required: bool, available: bool) -> IntegrationRow {
    IntegrationRow {
        key: key.to_string(),
        label: key.to_string(),
        state: String::new(),
        category: String::new(),
        description: String::new(),
        available,
        partially_supported: false,
        required,
    }
}

#[test]
fn install_prompt_and_steps() {
    let rows = vec![row("__all_optional__", false, true), row("git", true, true), row("bat", false, true), row("glow", false, false), row("less", false, false)];
    let refused = |i: usize| match begin_integration_install_prompt_for_selected(&rows, i, false) {
        InstallPrompt::Refused(m) => m,
        InstallPrompt::Confirm { .. } => String::from("confirm"),
    };
    assert_eq!(refused(0), "select a specific integration to install");
    assert_eq!(refused(1), "required integration cannot be installed from here");
    assert_eq!(refused(2), "bat is already available");
    assert_eq!(refused(4), "no brew package mapping for less");
    assert_eq!(refused(9), "invalid integration selection");
    match begin_integration_install_prompt_for_selected(&rows, 3, false) {
        InstallPrompt::Confirm { key, package } => assert_eq!((key.as_str(), package.as_str()), ("glow", "glow")),
        _ => panic!("expected a prompt"),
    }
    match begin_integration_install_prompt_for_selected(&Vec::new(), 0, false) {
        InstallPrompt::Refused(m) => assert_eq!(m, "no integration selected"),
        _ => panic!("expected a refusal"),
    }
    assert_eq!(brew_install_steps("fuse-zip", "fuse-zip-mac", true), vec![s(&["install", "--cask", "macfuse"]), s(&["install", "fuse-zip-mac"])]);
    assert_eq!(brew_install_steps("mmdflux", "kevinswiber/mmdflux/mmdflux", false), vec![s(&["tap", "kevinswiber/mmdflux"]), s(&["install", "kevinswiber/mmdflux/mmdflux"])]);
    assert_eq!(brew_install_steps("fuse-zip", "fuse-zip", false), vec![s(&["install", "fuse-zip"])]);
    assert_eq!(install_step_text(&s(&["install", "x"])), "install x");
    assert_eq!(install_result_status(Some("install x".to_string()), "x"), "brew install failed: install x");
    assert_eq!(install_result_status(None, "x"), "installed x with brew");
}

#[test]
fn brew_locations() {
    assert_eq!(brew_candidates(false, true, Some("/home/u")), s(&["/home/linuxbrew/.linuxbrew/bin/brew", "/home/u/.linuxbrew/bin/brew"]));
    assert_eq!(brew_candidates(true, false, None), s(&["/opt/homebrew/bin/brew", "/usr/local/bin/brew"]));
    let c = s(&["/a", "/b", "/c"]);
    assert_eq!(brew_command_path(None, &c, &vec![false, true, true]), Some("/b".to_string()));
    assert_eq!(brew_command_path(None, &c, &vec![false, false, false]), None);
    assert_eq!(brew_command_path(Some("/usr/bin/brew".to_string()), &c, &vec![true, true, true]), Some("/usr/bin/brew".to_string()));
}

#[test]
fn integration_settings_and_rows() {
    let mut st = IntegrationSettings::new();
    assert!(st.integration_enabled("bat"));
    st.set_integration_enabled("bat", false);
    assert!(!st.integration_enabled("bat"));
    assert!(!st.all_optional_integrations_enabled());
    st.set_all_optional_integrations(true);
    assert!(st.all_optional_integrations_enabled());
    assert!(is_required("less"));
    st.set_integration_enabled("less", false);
    assert!(st.integration_enabled("less"));
    let cat = integration_catalog();
    assert_eq!(integration_count(), cat.len() + 1);
    let n = cat.len();
    let rows = build_integration_rows(true, cat, vec![true; n], vec![(true, false); n]);
    assert_eq!(rows.len(), n + 1);
    assert_eq!(rows[0].key, "__all_optional__");
    assert_eq!(rows[0].state, "[on]");
}

#[test]
fn archive_listing_commands() {
    let c = archive_listing_command(Some(ArchiveKind::Zip), "a.zip", true, false, None, None).unwrap();
    assert_eq!((c.program.as_str(), c.args.clone()), ("unzip", vec!["-l".to_string(), "a.zip".to_string()]));
    assert!(archive_listing_command(Some(ArchiveKind::Zip), "a.zip", false, true, None, None).is_none());
    let c = archive_listing_command(Some(ArchiveKind::Tar), "a.tgz", false, true, None, None).unwrap();
    assert_eq!((c.program.as_str(), c.args.clone()), ("tar", vec!["-tvf".to_string(), "a.tgz".to_string()]));
    let c = archive_listing_command(Some(ArchiveKind::SevenZip), "a.7z", false, false, Some("7zz"), None).unwrap();
    assert_eq!((c.program.as_str(), c.args.clone()), ("7zz", vec!["l".to_string(), "a.7z".to_string()]));
    assert!(archive_listing_command(Some(ArchiveKind::Rar), "a.rar", true, true, Some("7z"), None).is_none());
    assert!(archive_listing_command(None, "a.txt", true, true, Some("7z"), Some("unrar")).is_none());
    assert_eq!(archive_listing_status("a.zip", false, false), "no archive preview tool available for a.zip");
    assert_eq!(archive_listing_status("a.zip", true, true), "previewed archive listing: a.zip");
    assert_eq!(archive_listing_status("a.zip", true, false), "failed to preview archive: a.zip");
}

#[test]
fn base64_alphabet_edges() {
    let wrap = |b64: &str| format!("\x1b]1337;File=inline=1;preserveAspectRatio=1;width=auto;height=auto:{}\x07", b64);
    assert_eq!(iterm2_inline_sequence(&[255]), wrap("/w=="));
    assert_eq!(iterm2_inline_sequence(&[251, 255, 191]), wrap("+/+/"));
    assert_eq!(iterm2_inline_sequence(&[]), wrap(""));
}
