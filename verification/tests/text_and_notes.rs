use sbrs_core::fmt::{decimal_string, limit_from_setting, parse_u64, parse_usize};
use sbrs_core::input::InputLine;
use sbrs_core::notes::{escape_note_field, parse_notes, sorted_unique, unescape_note_field, NoteMap};
use sbrs_core::quote::{shell_single_quote, sqlite_quote_ident};
use sbrs_core::text::{byte_index_for_char, join_strings};

#[test]
fn escape_note_field_escapes_separators() {
    assert_eq!(escape_note_field("a\tb\\c\nd\re"), "a\\tb\\\\c\\nd\\re");
}

#[test]
fn unescape_reads_back_escaped_field() {
    let raw = "tab\there\\slash\nnew";
    let escaped = escape_note_field(raw);
    assert_eq!(unescape_note_field(&escaped), Some(raw.to_string()));
}

#[test]
fn unescape_refuses_unknown_or_dangling_escape() {
    assert_eq!(unescape_note_field("bad\\x"), None);
    assert_eq!(unescape_note_field("dangling\\"), None);
}

#[test]
fn notes_serialize_in_name_order_and_parse_back() {
    let mut m = NoteMap::new();
    m.insert("b.txt", "second");
    m.insert("a.txt", "first\tline");
    let text = m.serialize().expect("notes present");
    assert_eq!(text, "a.txt\tfirst\\tline\nb.txt\tsecond\n");
    let back = parse_notes(&text);
    assert_eq!(back.get("a.txt"), Some("first\tline".to_string()));
    assert_eq!(back.get("b.txt"), Some("second".to_string()));
    assert_eq!(back.len(), 2);
}

#[test]
fn empty_notes_serialize_to_nothing() {
    let m = NoteMap::new();
    assert_eq!(m.serialize(), None);
}

#[test]
fn parse_notes_skips_blank_and_malformed_lines() {
    let m = parse_notes("x\t  \nnotab\n\tnoname\ny\tkept\r\n");
    assert_eq!(m.len(), 1);
    assert_eq!(m.get("y"), Some("kept".to_string()));
}

#[test]
fn note_edit_sets_and_clears() {
    let mut m = NoteMap::new();
    let targets = vec!["a".to_string(), "b".to_string()];
    m.apply_note_edit(&targets, "shared");
    assert_eq!(m.get("a"), Some("shared".to_string()));
    assert_eq!(m.get("b"), Some("shared".to_string()));
    m.apply_note_edit(&vec!["a".to_string()], "   ");
    assert_eq!(m.get("a"), None);
    assert_eq!(m.get("b"), Some("shared".to_string()));
}

#[test]
fn retain_notes_drops_missing_entries() {
    let mut m = NoteMap::new();
    m.insert("keep", "k");
    m.insert("gone", "g");
    m.retain_notes(&vec!["keep".to_string(), "other".to_string()]);
    assert_eq!(m.get("keep"), Some("k".to_string()));
    assert_eq!(m.get("gone"), None);
}

#[test]
fn sorted_unique_sorts_and_dedups() {
    let v = vec!["b".to_string(), "a".to_string(), "b".to_string()];
    assert_eq!(sorted_unique(&v), vec!["a".to_string(), "b".to_string()]);
}

#[test]
fn input_line_insert_then_backspace_restores() {
    let mut l = InputLine::new("héllo");
    l.move_left();
    l.move_left();
    l.insert_char('X');
    assert_eq!(l.text(), "hélXlo");
    assert_eq!(l.cursor(), 4);
    l.backspace();
    assert_eq!(l.text(), "héllo");
    assert_eq!(l.cursor(), 3);
}

#[test]
fn input_line_delete_and_home_end() {
    let mut l = InputLine::new("abc");
    l.move_home();
    l.delete();
    assert_eq!(l.text(), "bc");
    assert_eq!(l.cursor(), 0);
    l.move_end();
    assert_eq!(l.cursor(), 2);
    l.delete();
    assert_eq!(l.text(), "bc");
}

#[test]
fn input_line_cursor_line_col_and_active_line() {
    let mut l = InputLine::new("one\ntwo\nthree");
    l.move_left();
    assert_eq!(l.cursor_line_col(), (2, 4));
    assert_eq!(l.active_line_text(), "three");
    l.move_home();
    assert_eq!(l.cursor_line_col(), (0, 0));
    assert_eq!(l.active_line_text(), "one");
}

#[test]
fn byte_index_for_char_counts_utf8_widths() {
    assert_eq!(byte_index_for_char("aé€b", 0), 0);
    assert_eq!(byte_index_for_char("aé€b", 2), 3);
    assert_eq!(byte_index_for_char("aé€b", 3), 6);
    assert_eq!(byte_index_for_char("aé€b", 9), 7);
}

#[test]
fn decimal_and_parse() {
    assert_eq!(decimal_string(0), "0");
    assert_eq!(decimal_string(1234567), "1234567");
    assert_eq!(parse_usize("+42"), Some(42));
    assert_eq!(parse_usize(""), None);
    assert_eq!(parse_usize("+"), None);
    assert_eq!(parse_usize("4a"), None);
    assert_eq!(parse_usize(" 4"), None);
    assert_eq!(parse_u64("18446744073709551615"), Some(u64::MAX));
    assert_eq!(parse_u64("18446744073709551616"), None);
}

#[test]
fn limit_setting_falls_back_to_default() {
    assert_eq!(limit_from_setting(Some(" 500 "), 7), 500);
    assert_eq!(limit_from_setting(Some("0"), 7), 7);
    assert_eq!(limit_from_setting(Some("x"), 7), 7);
    assert_eq!(limit_from_setting(None, 7), 7);
}

#[test]
fn join_strings_puts_separator_between() {
    let parts = vec!["a".to_string(), "b".to_string(), "c".to_string()];
    assert_eq!(join_strings(&parts, ", "), "a, b, c");
    assert_eq!(join_strings(&Vec::new(), ", "), "");
}

#[test]
fn sqlite_identifiers_double_inner_quotes() {
    assert_eq!(sqlite_quote_ident("plain"), "\"plain\"");
    assert_eq!(sqlite_quote_ident("we\"ird"), "\"we\"\"ird\"");
}

#[test]
fn shell_quote_escapes_single_quotes() {
    assert_eq!(shell_single_quote("it's"), "'it'\"'\"'s'");
    assert_eq!(shell_single_quote(""), "''");
}
