//! Reading a stage's command log over the API: the page size a request may
//! ask for, where the log is read from (the live scratch file, a stored
//! blob, or the text inline in the projection), and the page returned.

use vstd::prelude::*;
use crate::materializer::{base64_encode, base64_standard};

verus! {

/// The most bytes one page of a command log holds.
pub const MAX_COMMAND_LOG_LIMIT: u64 = 1_048_576;

/// The page size in effect: the asked one, capped at the maximum; a limit of
/// 0 is refused.
pub fn command_log_limit(requested: u64) -> (r: Result<u64, String>)
    ensures
        requested == 0 ==> (r matches Err(m) && m@ == "limit must be greater than 0"@),
        requested > 0 ==> r == Ok::<u64, String>(
            if requested < MAX_COMMAND_LOG_LIMIT {
                requested
            } else {
                MAX_COMMAND_LOG_LIMIT
            },
        ),
{
    if requested == 0 {
        return Err("limit must be greater than 0".to_string());
    }
    if requested < MAX_COMMAND_LOG_LIMIT {
        Ok(requested)
    } else {
        Ok(MAX_COMMAND_LOG_LIMIT)
    }
}

/// What the projection holds of a stage's command output: the output value
/// (a blob reference or the text itself), whether it is a blob reference,
/// whether output was being streamed live, and whether the stage completed.
#[derive(Debug, Clone, PartialEq, Eq)]
pub struct StageLogInfo {
    pub output: Option<String>,
    pub output_is_blob_ref: bool,
    pub live_streaming: Option<bool>,
    pub completed: bool,
}

/// The blob the log was stored in, if its output is a blob reference.
pub open spec fn cas_ref_of(info: StageLogInfo) -> Option<String> {
    if info.output_is_blob_ref {
        info.output
    } else {
        None
    }
}

/// Whether the log may still grow: as recorded, else when there is no
/// stored blob and the stage has not completed.
pub open spec fn live_streaming_of(info: StageLogInfo) -> bool {
    match info.live_streaming {
        Some(b) => b,
        None => cas_ref_of(info) is None && !info.completed,
    }
}

/// The blob reference and live-streaming flag of a stage's log.
pub fn stage_log_refs(info: &StageLogInfo) -> (r: (Option<String>, bool))
    ensures
        r.0 == cas_ref_of(*info),
        r.1 == live_streaming_of(*info),
{
    let cas_ref = if info.output_is_blob_ref {
        match &info.output {
            Some(o) => Some(o.clone()),
            None => None,
        }
    } else {
        None
    };
    let live = match info.live_streaming {
        Some(b) => b,
        None => cas_ref.is_none() && !info.completed,
    };
    (cas_ref, live)
}

/// Where the log comes from when there is no scratch file.
#[derive(Debug, Clone, PartialEq, Eq)]
pub enum LogFallback {
    /// Read the stored blob; the whole log, so the page ends the log.
    Blob { cas_ref: String },
    /// The output text inline in the projection; the whole log.
    Inline { text: String },
    /// Nothing recorded: an empty page, at the end once the stage completed.
    Empty { eof: bool },
}

/// Where the log comes from when there is no scratch file: the stored blob,
/// else the inline output, else nothing.
pub fn log_fallback(info: &StageLogInfo) -> (r: LogFallback)
    ensures
        match cas_ref_of(*info) {
            Some(c) => r == (LogFallback::Blob { cas_ref: c }),
            None => match info.output {
                Some(t) => r == (LogFallback::Inline { text: t }),
                None => r == (LogFallback::Empty { eof: info.completed }),
            },
        },
{
    if info.output_is_blob_ref {
        if let Some(o) = &info.output {
            return LogFallback::Blob { cas_ref: o.clone() };
        }
    }
    match &info.output {
        Some(t) => LogFallback::Inline { text: t.clone() },
        None => LogFallback::Empty { eof: info.completed },
    }
}

/// The bytes a page covers: a slice read from the scratch file starting at
/// the requested offset (with the file's full size), or the whole log, of
/// which the page takes its part.
#[derive(Debug, Clone, PartialEq, Eq)]
pub enum LogSource {
    Sliced { bytes: Vec<u8>, total_bytes: u64 },
    Full(Vec<u8>),
}

/// A page of a command log.
#[derive(Debug, Clone, PartialEq, Eq)]
pub struct CommandLogResponseBody {
    pub offset: u64,
    pub next_offset: u64,
    pub total_bytes: u64,
    pub bytes_base64: String,
    pub eof: bool,
    pub cas_ref: Option<String>,
    pub live_streaming: bool,
}

pub open spec fn min_int(a: int, b: int) -> int {
    if a < b {
        a
    } else {
        b
    }
}

/// The page's bytes and the log's size: a slice as it was read; from the
/// whole log, at most `limit` bytes from the offset (kept within the log).
pub open spec fn page_of(requested_offset: u64, limit: u64, source: LogSource) -> (Seq<u8>, int, int) {
    match source {
        LogSource::Sliced { bytes, total_bytes } => (bytes@, total_bytes as int, min_int(
            requested_offset as int,
            total_bytes as int,
        )),
        LogSource::Full(bytes) => {
            let total = bytes@.len() as int;
            let offset = min_int(requested_offset as int, total);
            (bytes@.subrange(offset, min_int(offset + limit, total)), total, offset)
        },
    }
}

/// One page of a command log: where it starts, where the next page starts,
/// the log's size and the page's bytes in base64.
pub fn build_command_log_response(
    requested_offset: u64,
    limit: u64,
    source: LogSource,
    eof: bool,
    cas_ref: Option<String>,
    live_streaming: bool,
) -> (r: CommandLogResponseBody)
    requires
        source matches LogSource::Sliced { bytes, total_bytes } ==> min_int(
            requested_offset as int,
            total_bytes as int,
        ) + bytes@.len() <= u64::MAX,
    ensures
        ({
            let (page, total, offset) = page_of(requested_offset, limit, source);
            &&& r.offset == offset
            &&& r.next_offset == offset + page.len()
            &&& r.total_bytes == total
            &&& r.bytes_base64@ == base64_standard(page)
            &&& r.eof == eof
            &&& r.cas_ref == cas_ref
            &&& r.live_streaming == live_streaming
        }),
{
    let (body, total, offset): (Vec<u8>, u64, u64) = match source {
        LogSource::Sliced { bytes, total_bytes } => {
            let offset = if requested_offset < total_bytes {
                requested_offset
            } else {
                total_bytes
            };
            (bytes, total_bytes, offset)
        },
        LogSource::Full(bytes) => {
            let n = bytes.len();
            let total = n as u64;
            let offset = if requested_offset < total {
                requested_offset
            } else {
                total
            };
            let start = offset as usize;
            let end = if (n - start) as u64 > limit {
                start + limit as usize
            } else {
                n
            };
            let mut page: Vec<u8> = Vec::new();
            let mut i: usize = start;
            while i < end
                invariant
                    start <= i <= end <= n == bytes@.len(),
                    page@ == bytes@.subrange(start as int, i as int),
                decreases end - i,
            {
                page.push(bytes[i]);
                i = i + 1;
                assert(page@ =~= bytes@.subrange(start as int, i as int));
            }
            (page, total, offset)
        },
    };
    let encoded = base64_encode(body.as_slice());
    let n = body.len() as u64;
    CommandLogResponseBody {
        offset,
        next_offset: offset + n,
        total_bytes: total,
        bytes_base64: encoded,
        eof,
        cas_ref,
        live_streaming,
    }
}

} // verus!
