use vstd::prelude::*;
use crate::fmt::{decimal_spec, decimal_string};
use crate::text::concat_str;

verus! {

/// Whether a copy or move of the clipboard can start, and why not.
#[derive(Clone, Copy, PartialEq, Eq, Structural, Debug)]
pub enum TransferStart {
    Start,
    ClipboardEmpty,
    ArchiveRunning,
    CopyRunning,
}

/// Whether a transfer can start: there must be something on the clipboard
/// and no archive or copy job running.
pub fn begin_transfer_check(clipboard_len: usize, archive_running: bool, copy_running: bool) -> (r: TransferStart)
    ensures
        r == (if clipboard_len == 0 {
            TransferStart::ClipboardEmpty
        } else if archive_running {
            TransferStart::ArchiveRunning
        } else if copy_running {
            TransferStart::CopyRunning
        } else {
            TransferStart::Start
        }),
{
    if clipboard_len == 0 {
        TransferStart::ClipboardEmpty
    } else if archive_running {
        TransferStart::ArchiveRunning
    } else if copy_running {
        TransferStart::CopyRunning
    } else {
        TransferStart::Start
    }
}

/// The status of a transfer that cannot start.
pub fn begin_transfer_status(r: TransferStart) -> (s: String)
    ensures
        s@ == match r {
            TransferStart::ClipboardEmpty => "clipboard is empty"@,
            TransferStart::ArchiveRunning => "archive creation in progress"@,
            TransferStart::CopyRunning => "copy already in progress"@,
            TransferStart::Start => Seq::<char>::empty(),
        },
{
    match r {
        TransferStart::ClipboardEmpty => "clipboard is empty".to_string(),
        TransferStart::ArchiveRunning => "archive creation in progress".to_string(),
        TransferStart::CopyRunning => "copy already in progress".to_string(),
        TransferStart::Start => String::new(),
    }
}

/// The name a pasted item gets: its own, or `pasted_item` when it has
/// none.
pub fn paste_item_name(file_name: Option<&str>) -> (r: String)
    ensures
        r@ == match file_name {
            Some(n) => n@,
            None => "pasted_item"@,
        },
{
    match file_name {
        Some(n) => n.to_string(),
        None => "pasted_item".to_string(),
    }
}

/// The status after a transfer: complete with how many items, nothing to
/// do, or how many succeeded and failed.
pub open spec fn transfer_status_spec(ok: u64, failed: u64, total: u64) -> Seq<char> {
    if failed == 0 && ok > 0 {
        "transfer complete: "@ + decimal_spec(ok as nat) + " item"@
    } else if failed == 0 {
        "nothing to transfer"@
    } else {
        "transfer finished: "@ + decimal_spec(ok as nat) + " ok, "@ + decimal_spec(failed as nat) + " failed ("@
            + decimal_spec(total as nat) + " total)"@
    }
}

/// The status after a transfer (see [`transfer_status_spec`]).
pub fn transfer_finished_status(ok: u64, failed: u64, total: u64) -> (r: String)
    ensures
        r@ == transfer_status_spec(ok, failed, total),
{
    if failed == 0 && ok > 0 {
        let a = concat_str("transfer complete: ", decimal_string(ok).as_str());
        concat_str(a.as_str(), " item")
    } else if failed == 0 {
        "nothing to transfer".to_string()
    } else {
        let a = concat_str("transfer finished: ", decimal_string(ok).as_str());
        let b = concat_str(a.as_str(), " ok, ");
        let c = concat_str(b.as_str(), decimal_string(failed).as_str());
        let d = concat_str(c.as_str(), " failed (");
        let e = concat_str(d.as_str(), decimal_string(total).as_str());
        concat_str(e.as_str(), " total)")
    }
}

/// The ordinal of the item being copied: one past those done, at most the
/// total (or 1 with none).
pub fn current_item_index(ok: u64, failed: u64, total: u64) -> (r: u64)
    requires
        ok + failed + 1 <= u64::MAX,
    ensures
        r as int == (if ok + failed + 1 < (if total > 1 { total as int } else { 1 }) {
            ok + failed + 1
        } else {
            if total > 1 { total as int } else { 1 }
        }),
{
    let t = if total > 1 { total } else { 1 };
    let n = ok + failed + 1;
    if n < t { n } else { t }
}

} // verus!
