//! Progress events sent to the user interface.

use vstd::prelude::*;
use vstd::string::*;
use crate::text::{concat2, concat3, decimal, to_decimal};

verus! {

/// One progress event.
#[derive(Debug)]
pub struct ProgressEvent {
    /// `log`, `download_file_done`, `verify_progress`, `delete_progress`, ...
    pub event_type: String,
    pub message: String,
    pub current: u64,
    pub total: u64,
    pub file_name: Option<String>,
}

/// A log line at level `level`.
pub fn log_event(message: &str, level: &str) -> (r: ProgressEvent)
    ensures
        r.event_type@ == level@,
        r.message@ == message@,
        r.current == 0,
        r.total == 0,
        r.file_name is None,
{
    ProgressEvent {
        event_type: level.to_owned(),
        message: message.to_owned(),
        current: 0,
        total: 0,
        file_name: None,
    }
}

/// The report that the `n`-th of `total` downloads, of `file_name`, is done.
pub fn download_done_event(n: u64, total: u64, file_name: &str) -> (r: ProgressEvent)
    ensures
        r.event_type@ == "download_file_done"@,
        r.message@ == "["@ + decimal(n as nat) + "] "@ + file_name@,
        r.current == n,
        r.total == total,
        r.file_name matches Some(f) && f@ == file_name@,
{
    let d = to_decimal(n);
    let mut m = concat3("[", d.as_str(), "] ");
    m.append(file_name);
    ProgressEvent {
        event_type: "download_file_done".to_owned(),
        message: m,
        current: n,
        total,
        file_name: Some(file_name.to_owned()),
    }
}

/// The report that `n` of `total` files were checked, the last being `file_name`.
pub fn verify_event(n: u64, total: u64, file_name: &str) -> (r: ProgressEvent)
    ensures
        r.event_type@ == "verify_progress"@,
        r.message@ == "校验中: "@ + decimal(n as nat) + "/"@ + decimal(total as nat),
        r.current == n,
        r.total == total,
        r.file_name matches Some(f) && f@ == file_name@,
{
    let a = to_decimal(n);
    let b = to_decimal(total);
    let mut m = concat3("校验中: ", a.as_str(), "/");
    m.append(b.as_str());
    ProgressEvent {
        event_type: "verify_progress".to_owned(),
        message: m,
        current: n,
        total,
        file_name: Some(file_name.to_owned()),
    }
}

/// The report that the `done`-th of `total` entries of the game folder,
/// `name`, was removed; `what` says why (`清理旧版本: ` or `删除: `).
pub fn delete_event(what: &str, done: u64, total: u64, name: &str) -> (r: ProgressEvent)
    ensures
        r.event_type@ == "delete_progress"@,
        r.message@ == what@ + name@,
        r.current == done,
        r.total == total,
        r.file_name matches Some(f) && f@ == name@,
{
    ProgressEvent {
        event_type: "delete_progress".to_owned(),
        message: concat2(what, name),
        current: done,
        total,
        file_name: Some(name.to_owned()),
    }
}

/// The report that `done` of `count` pre-downloaded files were moved into place.
pub fn merge_event(done: u64, count: u64) -> (r: ProgressEvent)
    ensures
        r.event_type@ == "delete_progress"@,
        r.message@ == "合并预下载: "@ + decimal(done as nat) + "/"@ + decimal(count as nat),
        r.current == done,
        r.total == count,
        r.file_name is None,
{
    let a = to_decimal(done);
    let b = to_decimal(count);
    let mut m = concat3("合并预下载: ", a.as_str(), "/");
    m.append(b.as_str());
    ProgressEvent {
        event_type: "delete_progress".to_owned(),
        message: m,
        current: done,
        total: count,
        file_name: None,
    }
}

} // verus!
