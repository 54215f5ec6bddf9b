//! The decisions of a single-file download: which route it takes, where it
//! resumes, how its outcome is judged, and the requests and errors it makes.

use vstd::prelude::*;
use vstd::string::*;
use crate::error::{WwError, ErrorKind, network_error};
use crate::chunks::MIN_CHUNKED_SIZE;
use crate::text::{concat2, concat3, decimal, to_decimal};
use crate::config::opt_view;

verus! {

/// Attempts made for one file or chunk before giving up.
pub const RETRY_COUNT: u32 = 3;

/// How a file is downloaded.
#[derive(PartialEq, Eq, Structural, Clone, Copy, Debug)]
pub enum DownloadRoute {
    /// The temporary file is already complete: move it into place.
    ReuseTemp,
    /// Download in parallel chunks.
    Chunked,
    /// Download in one request, resuming the temporary file.
    Single,
}

/// How a file of `expected` bytes is downloaded, given the length of its
/// temporary file (when it exists): a complete temporary file is reused,
/// files over 4 MiB are chunked, others are fetched whole.
pub open spec fn route_spec(temp_len: Option<u64>, expected: u64) -> DownloadRoute {
    if temp_len == Some(expected) {
        DownloadRoute::ReuseTemp
    } else if expected > MIN_CHUNKED_SIZE {
        DownloadRoute::Chunked
    } else {
        DownloadRoute::Single
    }
}

/// The route of a download, stated on the arguments: a temporary file of
/// exactly the expected length is moved into place, whatever the size;
/// otherwise a file over 4 MiB is downloaded in chunks and a smaller one in
/// one request.
pub proof fn lemma_route_rule(temp_len: Option<u64>, expected: u64)
    ensures
        temp_len == Some(expected) ==> route_spec(temp_len, expected) == DownloadRoute::ReuseTemp,
        temp_len != Some(expected) && expected > 4194304 ==> route_spec(temp_len, expected) == DownloadRoute::Chunked,
        temp_len != Some(expected) && expected <= 4194304 ==> route_spec(temp_len, expected) == DownloadRoute::Single,
{
}

/// How a file is downloaded.
pub fn download_route(temp_len: Option<u64>, expected: u64) -> (r: DownloadRoute)
    ensures
        r == route_spec(temp_len, expected),
        temp_len == Some(expected) ==> r == DownloadRoute::ReuseTemp,
        temp_len != Some(expected) && expected > 4194304 ==> r == DownloadRoute::Chunked,
        temp_len != Some(expected) && expected <= 4194304 ==> r == DownloadRoute::Single,
{
    match temp_len {
        Some(l) => if l == expected {
            return DownloadRoute::ReuseTemp;
        },
        None => {},
    }
    if expected > MIN_CHUNKED_SIZE {
        DownloadRoute::Chunked
    } else {
        DownloadRoute::Single
    }
}

/// Where a single download resumes: `None` when the temporary file is
/// already complete, else its length (0 when it does not exist).
pub fn resume_point(temp_len: Option<u64>, expected: u64) -> (r: Option<u64>)
    ensures
        r == match temp_len {
            Some(l) => if l == expected { None } else { Some(l) },
            None => Some(0u64),
        },
{
    match temp_len {
        Some(l) => if l == expected { None } else { Some(l) },
        None => Some(0),
    }
}

/// The `Range` header value for the bytes from `from` to the end.
pub fn resume_range_header(from: u64) -> (r: String)
    ensures
        r@ == "bytes="@ + decimal(from as nat) + "-"@,
{
    let n = to_decimal(from);
    concat3("bytes=", n.as_str(), "-")
}

/// The `Range` header value for the bytes from `start` to `end`, inclusive.
pub fn range_header(start: u64, end: u64) -> (r: String)
    ensures
        r@ == "bytes="@ + decimal(start as nat) + "-"@ + decimal(end as nat),
{
    let a = to_decimal(start);
    let b = to_decimal(end);
    let mut r = concat3("bytes=", a.as_str(), "-");
    r.append(b.as_str());
    r
}

/// Whether a response status lets the body be written: 200 or 206.
pub fn status_acceptable(code: u16) -> (r: bool)
    ensures
        r == (code == 200 || code == 206),
{
    code == 200 || code == 206
}

/// The error for an unexpected response status.
pub fn http_status_error(code: u16) -> (r: WwError)
    ensures
        r@ == (ErrorKind::Network, "HTTP "@ + decimal(code as nat)),
{
    let n = to_decimal(code as u64);
    WwError::Network(concat2("HTTP ", n.as_str()))
}

/// The result of one attempt at a single download that ended with
/// `downloaded` bytes in the temporary file, of `expected`, where `md5` is the
/// MD5 computed while streaming (only when the download started from the
/// first byte): too few bytes is an error; the MD5 is kept only when the byte
/// count is exact.
pub fn attempt_outcome(downloaded: u64, expected: u64, md5: Option<String>) -> (r: Result<Option<String>, WwError>)
    ensures
        match r {
            Ok(m) => downloaded >= expected
                && opt_view(m) == if downloaded == expected { opt_view(md5) } else { None },
            Err(e) => downloaded < expected && e@ == (ErrorKind::Network, "下载不完整"@),
        },
{
    if downloaded < expected {
        return Err(network_error("下载不完整"));
    }
    if downloaded == expected {
        Ok(md5)
    } else {
        Ok(None)
    }
}

/// The number of bytes in the chunk from `start` to `end`, inclusive.
pub fn chunk_len(start: u64, end: u64) -> (r: u64)
    requires
        start <= end,
        end - start < u64::MAX,
    ensures
        r == end - start + 1,
{
    end - start + 1
}

/// The error when a merged download has `actual` bytes instead of `expected`.
pub fn merged_size_error(expected: u64, actual: u64) -> (r: WwError)
    ensures
        r@ == (ErrorKind::Network, "下载不完整: 期望 "@ + decimal(expected as nat) + " 字节，实际 "@
            + decimal(actual as nat) + " 字节"@),
{
    let a = to_decimal(expected);
    let b = to_decimal(actual);
    let mut m = concat3("下载不完整: 期望 ", a.as_str(), " 字节，实际 ");
    m.append(b.as_str());
    m.append(" 字节");
    WwError::Network(m)
}

/// The error when the chunk stored at `chunk` has `actual` bytes instead of `expected`.
pub fn chunk_size_error(chunk: &str, expected: u64, actual: u64) -> (r: WwError)
    ensures
        r@ == (ErrorKind::Network, "分块 "@ + chunk@ + " 下载不完整: 期望 "@ + decimal(expected as nat)
            + " 字节，实际 "@ + decimal(actual as nat) + " 字节"@),
{
    let a = to_decimal(expected);
    let b = to_decimal(actual);
    let mut m = concat3("分块 ", chunk, " 下载不完整: 期望 ");
    m.append(a.as_str());
    m.append(" 字节，实际 ");
    m.append(b.as_str());
    m.append(" 字节");
    WwError::Network(m)
}

/// Seconds to wait after failed attempt `attempt` (counted from 0).
pub fn retry_delay_secs(attempt: u32) -> (r: u64)
    ensures
        r == attempt + 1,
{
    1 + attempt as u64
}

/// Whether attempt `attempt` (counted from 0) is the last one.
pub fn is_last_attempt(attempt: u32) -> (r: bool)
    ensures
        r == (attempt + 1 == RETRY_COUNT),
{
    attempt == RETRY_COUNT - 1
}

/// After attempt `attempt` (counted from 0) failed: the seconds to wait before
/// the next attempt, or `None` when it was the last one.
pub fn retry_after_failure(attempt: u32) -> (r: Option<u64>)
    requires
        attempt < RETRY_COUNT,
    ensures
        r == if attempt + 1 == RETRY_COUNT { None } else { Some((attempt + 1) as u64) },
{
    if is_last_attempt(attempt) {
        None
    } else {
        Some(retry_delay_secs(attempt))
    }
}

/// What one attempt at downloading a chunk reports, in the order it happens.
#[derive(Debug)]
pub enum ChunkEvent {
    /// The request could not be sent; the text says why.
    RequestFailed(String),
    /// The server answered with this status.
    Status(u16),
    /// The body has been stored: this many bytes.
    Received(u64),
}

/// What a chunk download does next.
#[derive(Debug)]
pub enum ChunkAction {
    /// The chunk is complete.
    Done,
    /// The answer is usable: store its body.
    ReadBody,
    /// Wait this many seconds and try again; `discard` says whether the stored
    /// chunk is deleted first.
    Retry { delay_secs: u64, discard: bool },
    /// Give up with this error; `discard` says whether the stored chunk is
    /// deleted first.
    Fail { error: WwError, discard: bool },
}

/// After a failed attempt: wait and retry, or fail with `err` on the last one.
pub open spec fn retry_or_fail(attempt: u32, r: ChunkAction, err: (ErrorKind, Seq<char>), discard: bool) -> bool {
    if attempt + 1 == RETRY_COUNT {
        r matches ChunkAction::Fail { error, discard: d } && error@ == err && d == discard
    } else {
        r matches ChunkAction::Retry { delay_secs, discard: d } && delay_secs == attempt + 1 && d == discard
    }
}

/// The next step of attempt `attempt` at downloading the chunk stored at
/// `chunk`, of `expected` bytes, after `ev`: a request that fails or an
/// answer whose status is neither 200 nor 206 is retried; a body of the wrong
/// length is deleted and retried; the last attempt fails instead of retrying.
pub fn chunk_attempt_step(attempt: u32, chunk: &str, expected: u64, ev: ChunkEvent) -> (r: ChunkAction)
    requires
        attempt < RETRY_COUNT,
    ensures
        match ev {
            ChunkEvent::RequestFailed(m) => retry_or_fail(attempt, r, (ErrorKind::Network, "HTTP 请求失败: "@ + m@), false),
            ChunkEvent::Status(code) => if code == 200 || code == 206 {
                r is ReadBody
            } else {
                retry_or_fail(attempt, r, (ErrorKind::Network, "HTTP "@ + decimal(code as nat)), false)
            },
            ChunkEvent::Received(n) => if n == expected {
                r is Done
            } else {
                retry_or_fail(
                    attempt,
                    r,
                    (ErrorKind::Network, "分块 "@ + chunk@ + " 下载不完整: 期望 "@ + decimal(expected as nat)
                        + " 字节，实际 "@ + decimal(n as nat) + " 字节"@),
                    true,
                )
            },
        },
{
    let (error, discard) = match ev {
        ChunkEvent::RequestFailed(m) => (WwError::Network(concat2("HTTP 请求失败: ", m.as_str())), false),
        ChunkEvent::Status(code) => {
            if status_acceptable(code) {
                return ChunkAction::ReadBody;
            }
            (http_status_error(code), false)
        },
        ChunkEvent::Received(n) => {
            if n == expected {
                return ChunkAction::Done;
            }
            (chunk_size_error(chunk, expected, n), true)
        },
    };
    match retry_after_failure(attempt) {
        Some(delay_secs) => ChunkAction::Retry { delay_secs, discard },
        None => ChunkAction::Fail { error, discard },
    }
}

/// Whether every entry of `v` is true.
pub fn all_true(v: &Vec<bool>) -> (r: bool)
    ensures
        r == forall|i: int| 0 <= i < v@.len() ==> v@[i],
{
    let mut i: usize = 0;
    while i < v.len()
        invariant
            i <= v@.len(),
            forall|j: int| 0 <= j < i ==> v@[j],
        decreases v@.len() - i,
    {
        if !v[i] {
            return false;
        }
        i = i + 1;
    }
    true
}

/// The result of a chunked download whose chunks ended with `ok`: an error
/// when any chunk failed.
pub fn chunked_result(ok: &Vec<bool>) -> (r: Result<(), WwError>)
    ensures
        match r {
            Ok(()) => forall|i: int| 0 <= i < ok@.len() ==> ok@[i],
            Err(e) => (exists|i: int| 0 <= i < ok@.len() && !ok@[i])
                && e@ == (ErrorKind::Network, "分块下载失败，请重试。"@),
        },
{
    if all_true(ok) {
        Ok(())
    } else {
        Err(network_error("分块下载失败，请重试。"))
    }
}

} // verus!
