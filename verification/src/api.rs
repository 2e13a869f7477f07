//! Request-level rules of the HTTP API: pagination, the run board, path and
//! slug validation, control requests, startup reconciliation and the short
//! diagnostics line.

use vstd::prelude::*;
use crate::ids::RunId;
use crate::status::{FailureReason, RunControlAction, RunStatus};
use crate::sorting::{is_order_of, stable_order, stably_sorted};
use crate::text::{
    all_digits, chars_of, dec, digits_value, format_dec, has_char, is_digit, lemma_digits_value_monotone,
    push_str, push_vec, split_char, split_vec, str_eq, string_from_chars, string_from_range, trim, trim_str,
    unsigned_body, IntErrorKind, parse_u64_range, parse_u64_spec,
};
use crate::materializer::ascii_alnum;
use crate::diagnostics::{starts_with, str_starts_with};

verus! {

/// The page size a listing uses when none is asked for.
pub fn default_page_limit() -> (n: u32)
    ensures
        n == 20,
{
    20
}

/// The largest offset a listing honours.
pub const MAX_PAGE_OFFSET: u32 = 1_000_000;

/// A page of a listing: at most `limit` items after skipping `offset`.
#[derive(Debug, Clone, Copy, PartialEq, Eq)]
pub struct PaginationParams {
    pub limit: u32,
    pub offset: u32,
}

/// The parameters of a run listing.
#[derive(Debug, Clone, Copy, PartialEq, Eq)]
pub struct ListRunsParams {
    pub limit: u32,
    pub offset: u32,
    pub include_archived: bool,
}

impl ListRunsParams {
    pub fn pagination(&self) -> (p: PaginationParams)
        ensures
            p == (PaginationParams { limit: self.limit, offset: self.offset }),
    {
        PaginationParams { limit: self.limit, offset: self.offset }
    }
}

/// The page size in effect: the asked limit kept within 1..=100.
pub open spec fn effective_limit(p: PaginationParams) -> int {
    if p.limit < 1 {
        1
    } else if p.limit > 100 {
        100
    } else {
        p.limit as int
    }
}

/// The offset in effect: at most `MAX_PAGE_OFFSET`.
pub open spec fn effective_offset(p: PaginationParams) -> int {
    if p.offset > MAX_PAGE_OFFSET {
        MAX_PAGE_OFFSET as int
    } else {
        p.offset as int
    }
}

/// `page` is the page of `items` that `p` asks for, and `more` says whether
/// items remain after it.
pub open spec fn is_page_of<T>(items: Seq<T>, p: PaginationParams, page: Seq<T>, more: bool) -> bool {
    let n = items.len() as int;
    let lo = if effective_offset(p) < n { effective_offset(p) } else { n };
    let hi = if lo + effective_limit(p) < n { lo + effective_limit(p) } else { n };
    &&& page == items.subrange(lo, hi)
    &&& more == (n > lo + effective_limit(p))
}

/// A limit from 1 to 100 and an offset within bounds are honoured as asked:
/// the page is the next `min(limit, items left after offset)` items from the
/// offset, and more remain exactly when items run past it.
pub proof fn law_page_honours_limit_and_offset<T>(items: Seq<T>, p: PaginationParams, page: Seq<T>, more: bool)
    requires
        is_page_of(items, p, page, more),
        1 <= p.limit <= 100,
        p.offset <= 1_000_000,
    ensures
        p.offset >= items.len() ==> page.len() == 0 && !more,
        p.offset < items.len() ==> {
            let left = items.len() - p.offset;
            let take = if p.limit < left { p.limit as int } else { left };
            &&& page.len() == take
            &&& forall|i: int| 0 <= i < take ==> #[trigger] page[i] == items[p.offset + i]
            &&& more == (left > p.limit)
        },
{
}

/// Limits outside 1 to 100 are clamped: a limit of 0 pages like a limit of
/// 1, and a limit over 100 like a limit of 100; an offset past 1,000,000
/// pages like 1,000,000.
pub proof fn law_page_limits_are_clamped<T>(
    items: Seq<T>,
    p: PaginationParams,
    page: Seq<T>,
    more: bool,
    q: PaginationParams,
    page2: Seq<T>,
    more2: bool,
)
    requires
        is_page_of(items, p, page, more),
        is_page_of(items, q, page2, more2),
        (p.limit == 0 && q.limit == 1) || (p.limit > 100 && q.limit == 100) || p.limit == q.limit,
        p.offset == q.offset || (p.offset > 1_000_000 && q.offset == 1_000_000),
    ensures
        page == page2,
        more == more2,
{
}

/// One page of `items`, and whether items remain after it.
pub fn paginate_items<T>(items: Vec<T>, pagination: &PaginationParams) -> (r: (Vec<T>, bool))
    ensures
        is_page_of(items@, *pagination, r.0@, r.1),
        ({
            let n = items@.len() as int;
            let lo = if effective_offset(*pagination) < n { effective_offset(*pagination) } else { n };
            let hi = if lo + effective_limit(*pagination) < n { lo + effective_limit(*pagination) } else { n };
            &&& r.0@ == items@.subrange(lo, hi)
            &&& r.1 == (n > lo + effective_limit(*pagination))
        }),
{
    let limit: usize = if pagination.limit < 1 {
        1
    } else if pagination.limit > 100 {
        100
    } else {
        pagination.limit as usize
    };
    let offset: usize = if pagination.offset > MAX_PAGE_OFFSET {
        MAX_PAGE_OFFSET as usize
    } else {
        pagination.offset as usize
    };
    let mut items = items;
    let ghost all = items@;
    let mut data: Vec<T> = if offset < items.len() {
        items.split_off(offset)
    } else {
        Vec::new()
    };
    proof {
        if offset < all.len() {
            assert(data@ =~= all.subrange(offset as int, all.len() as int));
        }
    }
    let has_more = data.len() > limit;
    if has_more {
        data.truncate(limit);
    }
    proof {
        if offset < all.len() {
            assert(data@ =~= all.subrange(
                offset as int,
                if offset + limit < all.len() { offset + limit } else { all.len() as int },
            ));
        } else {
            assert(data@ =~= all.subrange(all.len() as int, all.len() as int));
        }
    }
    (data, has_more)
}

/// The columns of the run board.
#[derive(Debug, Clone, Copy, PartialEq, Eq, Structural)]
pub enum BoardColumn {
    Queued,
    Initializing,
    Running,
    Blocked,
    Succeeded,
    Failed,
    Archived,
}

/// The board column of a run, if it shows on the board at all.
pub open spec fn board_column_of(status: RunStatus, archived: bool) -> Option<BoardColumn> {
    if archived {
        Some(BoardColumn::Archived)
    } else {
        match status {
            RunStatus::Submitted | RunStatus::Queued => Some(BoardColumn::Queued),
            RunStatus::Starting => Some(BoardColumn::Initializing),
            RunStatus::Running | RunStatus::Paused { .. } => Some(BoardColumn::Running),
            RunStatus::Blocked { .. } => Some(BoardColumn::Blocked),
            RunStatus::Succeeded { .. } => Some(BoardColumn::Succeeded),
            RunStatus::Failed { .. } | RunStatus::Dead => Some(BoardColumn::Failed),
            RunStatus::Removing => None,
        }
    }
}

pub fn board_column(status: RunStatus, archived: bool) -> (c: Option<BoardColumn>)
    ensures
        c == board_column_of(status, archived),
{
    if archived {
        return Some(BoardColumn::Archived);
    }
    match status {
        RunStatus::Submitted | RunStatus::Queued => Some(BoardColumn::Queued),
        RunStatus::Starting => Some(BoardColumn::Initializing),
        RunStatus::Running | RunStatus::Paused { .. } => Some(BoardColumn::Running),
        RunStatus::Blocked { .. } => Some(BoardColumn::Blocked),
        RunStatus::Succeeded { .. } => Some(BoardColumn::Succeeded),
        RunStatus::Failed { .. } | RunStatus::Dead => Some(BoardColumn::Failed),
        RunStatus::Removing => None,
    }
}

/// A column of the board and its display name.
#[derive(Debug, Clone, PartialEq, Eq)]
pub struct BoardColumnDefinition {
    pub id: BoardColumn,
    pub name: String,
}

/// The board's columns in display order, with their names.
pub open spec fn board_column_list(include_archived: bool) -> Seq<(BoardColumn, Seq<char>)> {
    let base = seq![
        (BoardColumn::Queued, "Queued"@),
        (BoardColumn::Initializing, "Initializing"@),
        (BoardColumn::Running, "Running"@),
        (BoardColumn::Blocked, "Blocked"@),
        (BoardColumn::Succeeded, "Succeeded"@),
        (BoardColumn::Failed, "Failed"@),
    ];
    if include_archived {
        base.push((BoardColumn::Archived, "Archived"@))
    } else {
        base
    }
}

pub fn board_columns(include_archived: bool) -> (cols: Vec<BoardColumnDefinition>)
    ensures
        cols@.map_values(|d: BoardColumnDefinition| (d.id, d.name@)) == board_column_list(include_archived),
{
    let mut cols: Vec<BoardColumnDefinition> = Vec::new();
    cols.push(BoardColumnDefinition { id: BoardColumn::Queued, name: "Queued".to_string() });
    cols.push(BoardColumnDefinition { id: BoardColumn::Initializing, name: "Initializing".to_string() });
    cols.push(BoardColumnDefinition { id: BoardColumn::Running, name: "Running".to_string() });
    cols.push(BoardColumnDefinition { id: BoardColumn::Blocked, name: "Blocked".to_string() });
    cols.push(BoardColumnDefinition { id: BoardColumn::Succeeded, name: "Succeeded".to_string() });
    cols.push(BoardColumnDefinition { id: BoardColumn::Failed, name: "Failed".to_string() });
    if include_archived {
        cols.push(BoardColumnDefinition { id: BoardColumn::Archived, name: "Archived".to_string() });
    }
    assert(cols@.map_values(|d: BoardColumnDefinition| (d.id, d.name@)) =~= board_column_list(include_archived));
    cols
}

/// Every status that shows on the board lands in a column, and only a run
/// being removed is left out.
pub proof fn law_board_covers_statuses(status: RunStatus, archived: bool)
    ensures
        (board_column_of(status, archived) is None) == (!archived && status == RunStatus::Removing),
        archived ==> board_column_of(status, archived) == Some(BoardColumn::Archived),
{
}

/// Paths the web UI no longer serves.
pub open spec fn is_removed_web_route(path: Seq<char>) -> bool {
    path == "/setup/complete"@ || (path.len() >= 8 && path.subrange(0, 8) == "/install"@)
}

pub fn removed_web_route(path: &str) -> (b: bool)
    ensures
        b == is_removed_web_route(path@),
{
    proof {
        reveal_strlit("/install");
    }
    if str_eq(path, "/setup/complete") {
        return true;
    }
    let v = chars_of(path);
    if v.len() < 8 {
        return false;
    }
    let prefix = string_from_range(&v, 0, 8);
    str_eq(prefix.as_str(), "/install")
}

/// Where the server sends a request that no named route took.
#[derive(Debug, Clone, Copy, PartialEq, Eq, Structural)]
pub enum FallbackRoute {
    /// The demo API.
    Demo,
    /// The API and auth routes.
    Api,
    /// A static web asset.
    Static,
    /// Nothing: 404.
    NotFound,
}

/// The route of a request by its path, whether it is a GET or HEAD,
/// whether its `x-fabro-demo` header is `1`, and whether the web UI is on:
/// API, health and (with the web UI) auth paths go to the API, or to the
/// demo API for an API path that asks for it with the web UI on; with the
/// web UI on, removed routes are not found and other reads are static
/// assets; anything else is not found.
pub open spec fn fallback_route_of(path: Seq<char>, get_or_head: bool, demo_requested: bool, web_enabled: bool) -> FallbackRoute {
    let api = starts_with(path, "/api/"@);
    if api || path == "/health"@ || (web_enabled && starts_with(path, "/auth/"@)) {
        if web_enabled && api && demo_requested {
            FallbackRoute::Demo
        } else {
            FallbackRoute::Api
        }
    } else if web_enabled && is_removed_web_route(path) {
        FallbackRoute::NotFound
    } else if web_enabled && get_or_head {
        FallbackRoute::Static
    } else {
        FallbackRoute::NotFound
    }
}

/// Routes a request that no named route took; `demo_header` is the
/// request's `x-fabro-demo` header, where it has one that is text.
pub fn fallback_route(path: &str, get_or_head: bool, demo_header: Option<&str>, web_enabled: bool) -> (r: FallbackRoute)
    ensures
        r == fallback_route_of(
            path@,
            get_or_head,
            demo_header matches Some(h) && h@ == "1"@,
            web_enabled,
        ),
{
    let demo_requested = match demo_header {
        Some(h) => str_eq(h, "1"),
        None => false,
    };
    let api = str_starts_with(path, "/api/");
    if api || str_eq(path, "/health") || (web_enabled && str_starts_with(path, "/auth/")) {
        if web_enabled && api && demo_requested {
            FallbackRoute::Demo
        } else {
            FallbackRoute::Api
        }
    } else if web_enabled && removed_web_route(path) {
        FallbackRoute::NotFound
    } else if web_enabled && get_or_head {
        FallbackRoute::Static
    } else {
        FallbackRoute::NotFound
    }
}

/// Sandbox providers whose clones may use the server's GitHub credentials.
pub fn clone_sandbox_can_use_github_credentials(provider: &str) -> (b: bool)
    ensures
        b == (provider@ == "docker"@ || provider@ == "daytona"@),
{
    str_eq(provider, "docker") || str_eq(provider, "daytona")
}

/// A count as `i64`, saturating at `i64::MAX`.
pub fn to_i64(value: u64) -> (r: i64)
    ensures
        r == if value <= i64::MAX { value as int } else { i64::MAX as int },
{
    if value <= 0x7FFF_FFFF_FFFF_FFFFu64 {
        value as i64
    } else {
        0x7FFF_FFFF_FFFF_FFFFi64
    }
}

/// How a worker process is asked to execute a run.
#[derive(Debug, Clone, Copy, PartialEq, Eq, Structural)]
pub enum RunExecutionMode {
    Start,
    Resume,
}

/// The worker's command-line word for the mode.
pub fn worker_mode_arg(mode: RunExecutionMode) -> (s: &'static str)
    ensures
        s@ == match mode {
            RunExecutionMode::Start => "start"@,
            RunExecutionMode::Resume => "resume"@,
        },
{
    match mode {
        RunExecutionMode::Start => "start",
        RunExecutionMode::Resume => "resume",
    }
}

/// The argv a worker process runs with, after the program: the hidden
/// worker subcommand, then the server to report to, the storage and run
/// directories, the run id and the execution mode.
pub fn worker_args(
    server_target: &str,
    storage_dir: &str,
    run_dir: &str,
    run_id: RunId,
    mode: RunExecutionMode,
) -> (r: Vec<String>)
    ensures
        r@.map_values(|a: String| a@) == seq![
            "__run-worker"@,
            "--server"@,
            server_target@,
            "--storage-dir"@,
            storage_dir@,
            "--run-dir"@,
            run_dir@,
            "--run-id"@,
            run_id.text(),
            "--mode"@,
            match mode {
                RunExecutionMode::Start => "start"@,
                RunExecutionMode::Resume => "resume"@,
            },
        ],
{
    let mut r: Vec<String> = Vec::new();
    r.push("__run-worker".to_string());
    r.push("--server".to_string());
    r.push(server_target.to_string());
    r.push("--storage-dir".to_string());
    r.push(storage_dir.to_string());
    r.push("--run-dir".to_string());
    r.push(run_dir.to_string());
    r.push("--run-id".to_string());
    r.push(run_id.to_string());
    r.push("--mode".to_string());
    r.push(worker_mode_arg(mode).to_string());
    assert(r@.map_values(|a: String| a@) =~= seq![
        "__run-worker"@,
        "--server"@,
        server_target@,
        "--storage-dir"@,
        storage_dir@,
        "--run-dir"@,
        run_dir@,
        "--run-id"@,
        run_id.text(),
        "--mode"@,
        match mode {
            RunExecutionMode::Start => "start"@,
            RunExecutionMode::Resume => "resume"@,
        },
    ]);
    r
}

/// The log level a worker is started with: none when the server's own
/// environment already sets one (the worker inherits it), else the level in
/// the server's settings, if any.
pub fn worker_log_level(env_sets_level: bool, settings_level: Option<&str>) -> (r: Option<String>)
    ensures
        env_sets_level ==> r is None,
        !env_sets_level ==> match settings_level {
            Some(l) => r matches Some(x) && x@ == l@,
            None => r is None,
        },
{
    if env_sets_level {
        return None;
    }
    match settings_level {
        Some(l) => Some(l.to_string()),
        None => None,
    }
}

/// A steering or interrupt request sent to a running run.
#[derive(Debug, Clone, PartialEq, Eq)]
pub enum RunControlRequest {
    Steer { text: String },
    Interrupt,
    InterruptThenSteer { text: String },
}

impl RunControlRequest {
    /// Interrupting needs a live API session with the agent.
    pub fn requires_active_api_session(&self) -> (b: bool)
        ensures
            b == (*self matches RunControlRequest::Interrupt || *self matches RunControlRequest::InterruptThenSteer { .. }),
    {
        match self {
            RunControlRequest::Interrupt | RunControlRequest::InterruptThenSteer { .. } => true,
            RunControlRequest::Steer { .. } => false,
        }
    }
}

/// Runs found in one of these statuses at startup were cut short by the
/// previous server and are reconciled.
pub open spec fn needs_startup_reconcile(status: RunStatus) -> bool {
    match status {
        RunStatus::Queued | RunStatus::Starting | RunStatus::Running | RunStatus::Blocked { .. }
        | RunStatus::Paused { .. } | RunStatus::Removing => true,
        _ => false,
    }
}

pub fn should_reconcile_run_on_startup(status: RunStatus) -> (b: bool)
    ensures
        b == needs_startup_reconcile(status),
{
    match status {
        RunStatus::Queued | RunStatus::Starting | RunStatus::Running | RunStatus::Blocked { .. }
        | RunStatus::Paused { .. } | RunStatus::Removing => true,
        _ => false,
    }
}

/// The workflow error recorded for a run that did not finish.
#[derive(Debug, Clone, PartialEq, Eq)]
pub enum IncompleteRunError {
    /// The run was being cancelled.
    Cancelled,
    /// The engine stopped with this message.
    Engine(String),
}

/// How a run that did not finish is failed: as cancelled when a cancel was
/// pending, else as terminated with the given message.
pub fn failure_for_incomplete_run(pending_control: Option<RunControlAction>, terminated_message: String) -> (r: (
    IncompleteRunError,
    FailureReason,
))
    ensures
        pending_control == Some(RunControlAction::Cancel) ==> r == (
        IncompleteRunError::Cancelled,
        FailureReason::Cancelled,
        ),
        pending_control != Some(RunControlAction::Cancel) ==> r == (
        IncompleteRunError::Engine(terminated_message),
        FailureReason::Terminated,
        ),
{
    match pending_control {
        Some(RunControlAction::Cancel) => (IncompleteRunError::Cancelled, FailureReason::Cancelled),
        _ => (IncompleteRunError::Engine(terminated_message), FailureReason::Terminated),
    }
}

/// The bytes of a command log read when no limit is asked for.
pub fn default_command_log_limit() -> (n: u64)
    ensures
        n == 65_536,
{
    65_536
}

/// An entity tag without its surrounding double quotes, when it has both.
pub open spec fn unquoted(value: Seq<char>) -> Seq<char> {
    if value.len() >= 2 && value[0] == '"' && value.last() == '"' {
        value.subrange(1, value.len() - 1)
    } else {
        value
    }
}

pub fn unquote_etag(value: &str) -> (r: String)
    ensures
        r@ == unquoted(value@),
{
    let v = chars_of(value);
    let n = v.len();
    if n >= 2 && v[0] == '"' && v[n - 1] == '"' {
        string_from_range(&v, 1, n - 1)
    } else {
        value.to_string()
    }
}

/// A GitHub owner or repository name as the API accepts it in a path: 1 to
/// `max_len` ASCII letters, digits, `-`, `_` and `.`, and neither `.` nor
/// `..`.
pub open spec fn github_slug_ok(value: Seq<char>, max_len: usize) -> bool {
    &&& 0 < value.len() <= max_len
    &&& value != "."@
    &&& value != ".."@
    &&& forall|i: int|
        0 <= i < value.len() ==> ascii_alnum(#[trigger] value[i]) || value[i] == '-' || value[i] == '_' || value[i] == '.'
}

/// Checks a GitHub slug; the error is `invalid github <kind>`.
pub fn validate_github_slug(kind: &str, value: &str, max_len: usize) -> (r: Result<(), String>)
    ensures
        github_slug_ok(value@, max_len) ==> r is Ok,
        !github_slug_ok(value@, max_len) ==> (r matches Err(m) && m@ == "invalid github "@ + kind@),
{
    let v = chars_of(value);
    let mut ok = v.len() > 0 && v.len() <= max_len && !str_eq(value, ".") && !str_eq(value, "..");
    let mut i: usize = 0;
    while ok && i < v.len()
        invariant
            v@ == value@,
            i <= v@.len(),
            ok ==> forall|j: int|
                0 <= j < i ==> ascii_alnum(#[trigger] v@[j]) || v@[j] == '-' || v@[j] == '_' || v@[j] == '.',
            ok == (0 < value@.len() <= max_len && value@ != "."@ && value@ != ".."@ && forall|j: int|
                0 <= j < i ==> ascii_alnum(#[trigger] v@[j]) || v@[j] == '-' || v@[j] == '_' || v@[j] == '.'),
        decreases v.len() - i,
    {
        let c = v[i];
        if !(('0' <= c && c <= '9') || ('a' <= c && c <= 'z') || ('A' <= c && c <= 'Z') || c == '-' || c == '_'
            || c == '.') {
            ok = false;
        }
        i = i + 1;
    }
    if ok {
        Ok(())
    } else {
        let mut msg: Vec<char> = Vec::new();
        push_str(&mut msg, "invalid github ");
        push_str(&mut msg, kind);
        Err(string_from_chars(&msg))
    }
}

/// Why a relative artifact path is refused, if it is.
pub open spec fn artifact_path_problem(value: Seq<char>) -> Option<Seq<char>> {
    let segments = split_char(value, '/');
    if value.len() == 0 {
        Some(" must not be empty"@)
    } else if has_char(value, '\\') {
        Some(" must not contain backslashes"@)
    } else if exists|i: int| 0 <= i < segments.len() && (#[trigger] segments[i]).len() == 0 {
        Some(" must not contain empty path segments"@)
    } else if exists|i: int| 0 <= i < segments.len() && (#[trigger] segments[i] == "."@ || segments[i] == ".."@) {
        Some(" must be a relative path without '.' or '..' segments"@)
    } else {
        None
    }
}

/// Checks a relative artifact path (`kind` names it in the error): not
/// empty, no backslash, no empty, `.` or `..` segment. An accepted path is
/// returned as it was.
pub fn validate_relative_artifact_path(kind: &str, value: &str) -> (r: Result<String, String>)
    ensures
        artifact_path_problem(value@) is None ==> (r matches Ok(p) && p@ == value@),
        artifact_path_problem(value@) matches Some(problem) ==> (r matches Err(m) && m@ == kind@ + problem),
{
    let v = chars_of(value);
    let problem: Option<&str> = if v.len() == 0 {
        Some(" must not be empty")
    } else {
        let mut backslash = false;
        let mut i: usize = 0;
        while i < v.len()
            invariant
                i <= v@.len(),
                backslash == exists|j: int| 0 <= j < i && v@[j] == '\\',
            decreases v.len() - i,
        {
            if v[i] == '\\' {
                backslash = true;
            }
            i = i + 1;
        }
        if backslash {
            Some(" must not contain backslashes")
        } else {
            let parts = split_vec(&v, '/');
            let mut empty = false;
            let mut dots = false;
            let mut k: usize = 0;
            while k < parts.len()
                invariant
                    k <= parts@.len(),
                    parts@.len() == split_char(v@, '/').len(),
                    forall|t: int| 0 <= t < parts@.len() ==> #[trigger] parts@[t]@ == split_char(v@, '/')[t],
                    empty == exists|t: int| 0 <= t < k && (#[trigger] split_char(v@, '/')[t]).len() == 0,
                    dots == exists|t: int|
                        0 <= t < k && (#[trigger] split_char(v@, '/')[t] == "."@ || split_char(v@, '/')[t] == ".."@),
                decreases parts.len() - k,
            {
                let seg = string_from_range(&parts[k], 0, parts[k].len());
                assert(parts@[k as int]@.subrange(0, parts@[k as int]@.len() as int) =~= parts@[k as int]@);
                if parts[k].len() == 0 {
                    empty = true;
                }
                if str_eq(seg.as_str(), ".") || str_eq(seg.as_str(), "..") {
                    dots = true;
                }
                k = k + 1;
            }
            if empty {
                Some(" must not contain empty path segments")
            } else if dots {
                Some(" must be a relative path without '.' or '..' segments")
            } else {
                None
            }
        }
    };
    match problem {
        None => Ok(value.to_string()),
        Some(p) => {
            let mut msg: Vec<char> = Vec::new();
            push_str(&mut msg, kind);
            push_str(&mut msg, p);
            Err(string_from_chars(&msg))
        },
    }
}

/// `cannot remove active run <first 12 characters of the id> (status:
/// <status>, use force=true or --force to force)`.
pub fn active_run_delete_message(run_id: RunId, status: RunStatus) -> (s: String)
    ensures
        s@ == "cannot remove active run "@ + run_id.text().subrange(0, 12) + " (status: "@ + status.display()
            + ", use force=true or --force to force)"@,
{
    let id = run_id.to_string();
    let idv = chars_of(id.as_str());
    let short = string_from_range(&idv, 0, 12);
    let mut msg: Vec<char> = Vec::new();
    push_str(&mut msg, "cannot remove active run ");
    push_str(&mut msg, short.as_str());
    push_str(&mut msg, " (status: ");
    push_str(&mut msg, status.to_string().as_str());
    push_str(&mut msg, ", use force=true or --force to force)");
    string_from_chars(&msg)
}

/// The status a delete is judged by: the one the server tracks for a live
/// run, otherwise the stored one.
pub open spec fn delete_judged_status(live_status: Option<RunStatus>, stored_status: Option<RunStatus>) -> Option<RunStatus> {
    if live_status is Some {
        live_status
    } else {
        stored_status
    }
}

/// A delete without force is refused (with the conflict message) while the
/// run is active: by the status the server tracks for it, or, for a run it
/// does not track, by its stored status.
pub fn check_delete_without_force(
    run_id: RunId,
    live_status: Option<RunStatus>,
    stored_status: Option<RunStatus>,
) -> (r: Result<(), String>)
    ensures
        match delete_judged_status(live_status, stored_status) {
            Some(st) => if st.active() && !(st is Removing) {
                r matches Err(m) && m@ == "cannot remove active run "@ + run_id.text().subrange(0, 12)
                    + " (status: "@ + st.display() + ", use force=true or --force to force)"@
            } else {
                r is Ok
            },
            None => r is Ok,
        },
{
    let status = match live_status {
        Some(s) => Some(s),
        None => stored_status,
    };
    match status {
        Some(st) => {
            if st.requires_force_to_delete() {
                Err(active_run_delete_message(run_id, st))
            } else {
                Ok(())
            }
        },
        None => Ok(()),
    }
}

/// `Pull request #<number> was deleted on GitHub.`: the message of the
/// error answered when GitHub no longer has a recorded pull request.
pub fn github_pull_request_not_found_message(number: u64) -> (s: String)
    ensures
        s@ == "Pull request #"@ + dec(number as nat) + " was deleted on GitHub."@,
{
    let mut msg: Vec<char> = Vec::new();
    push_str(&mut msg, "Pull request #");
    push_vec(&mut msg, &format_dec(number));
    push_str(&mut msg, " was deleted on GitHub.");
    string_from_chars(&msg)
}

/// The longest first line the diagnostics report shows before cutting it.
pub const MAX_SHORT_LEN: usize = 120;

/// The first line that is not blank, trimmed.
pub open spec fn first_nonblank(lines: Seq<Seq<char>>) -> Option<Seq<char>>
    decreases lines.len(),
{
    if lines.len() == 0 {
        None
    } else if trim(lines[0]).len() > 0 {
        Some(trim(lines[0]))
    } else {
        first_nonblank(lines.drop_first())
    }
}

/// The one-line form of a rendered error: its first non-blank line,
/// trimmed (`error` when there is none), cut to 120 characters followed by
/// `...` when longer.
pub open spec fn short_line_of(rendered: Seq<char>) -> Seq<char> {
    let first = match first_nonblank(split_char(rendered, '\n')) {
        Some(l) => l,
        None => "error"@,
    };
    if first.len() > MAX_SHORT_LEN {
        first.subrange(0, MAX_SHORT_LEN as int) + "..."@
    } else {
        first
    }
}

pub fn short_error_line(rendered: &str) -> (s: String)
    ensures
        s@ == short_line_of(rendered@),
{
    let v = chars_of(rendered);
    let parts = split_vec(&v, '\n');
    let ghost lines = split_char(v@, '\n');
    let mut first: Option<String> = None;
    let mut k: usize = 0;
    assert(lines.subrange(0, lines.len() as int) =~= lines);
    while k < parts.len() && first.is_none()
        invariant
            k <= parts@.len(),
            parts@.len() == lines.len(),
            lines == split_char(rendered@, '\n'),
            forall|t: int| 0 <= t < parts@.len() ==> #[trigger] parts@[t]@ == lines[t],
            first is None ==> first_nonblank(lines) == first_nonblank(lines.subrange(k as int, lines.len() as int)),
            first matches Some(f) ==> first_nonblank(lines) == Some(f@),
        decreases parts.len() - k,
    {
        let ghost rest = lines.subrange(k as int, lines.len() as int);
        let line = string_from_range(&parts[k], 0, parts[k].len());
        assert(parts@[k as int]@.subrange(0, parts@[k as int]@.len() as int) =~= parts@[k as int]@);
        let trimmed = trim_str(line.as_str());
        assert(rest[0] == lines[k as int]);
        assert(rest.drop_first() =~= lines.subrange(k + 1, lines.len() as int));
        if !trimmed.as_str().is_empty() {
            first = Some(trimmed);
        }
        k = k + 1;
    }
    proof {
        if first is None {
            assert(lines.subrange(lines.len() as int, lines.len() as int) =~= Seq::<Seq<char>>::empty());
        }
    }
    let first_line = match first {
        Some(f) => f,
        None => "error".to_string(),
    };
    let fv = chars_of(first_line.as_str());
    if fv.len() > MAX_SHORT_LEN {
        let mut out: Vec<char> = Vec::new();
        let mut i: usize = 0;
        while i < MAX_SHORT_LEN
            invariant
                i <= MAX_SHORT_LEN < fv@.len(),
                out@ == fv@.subrange(0, i as int),
            decreases MAX_SHORT_LEN - i,
        {
            out.push(fv[i]);
            i = i + 1;
            assert(out@ =~= fv@.subrange(0, i as int));
        }
        push_str(&mut out, "...");
        assert(out@ =~= fv@.subrange(0, MAX_SHORT_LEN as int) + "..."@);
        string_from_chars(&out)
    } else {
        first_line
    }
}

/// A retention period given in hours or days.
#[derive(Debug, Clone, Copy, PartialEq, Eq, Structural)]
pub enum SystemDuration {
    Hours(i64),
    Days(i64),
}

/// Why a retention period could not be read.
#[derive(Debug, Clone, PartialEq, Eq)]
pub enum DurationParseError {
    /// Nothing but whitespace.
    Empty,
    /// The amount is not a `u64`.
    Number(IntErrorKind),
    /// The last character is neither `h` nor `d`.
    Unit { unit: String, raw: String },
}

impl DurationParseError {
    pub open spec fn message(&self) -> Seq<char> {
        match self {
            DurationParseError::Empty => "empty duration string"@,
            DurationParseError::Number(k) => k.message(),
            DurationParseError::Unit { unit, raw } => "invalid duration unit '"@ + unit@ + "' in '"@ + raw@
                + "' (expected 'h' or 'd')"@,
        }
    }

    pub fn to_string(&self) -> (s: String)
        ensures
            s@ == self.message(),
    {
        match self {
            DurationParseError::Empty => "empty duration string".to_string(),
            DurationParseError::Number(k) => k.to_string(),
            DurationParseError::Unit { unit, raw } => {
                let mut msg: Vec<char> = Vec::new();
                push_str(&mut msg, "invalid duration unit '");
                push_str(&mut msg, unit.as_str());
                push_str(&mut msg, "' in '");
                push_str(&mut msg, raw.as_str());
                push_str(&mut msg, "' (expected 'h' or 'd')");
                string_from_chars(&msg)
            },
        }
    }
}

/// An amount as `i64`, saturating at `i64::MAX`.
pub open spec fn saturate_i64(a: u64) -> i64 {
    if a <= i64::MAX {
        a as i64
    } else {
        i64::MAX
    }
}

/// Whether `r` is what reading `raw` as a retention period gives: the
/// trimmed text is an amount (a `u64`, saturated to `i64`) followed by a
/// one-character unit, `h` or `d`.
pub open spec fn duration_parse_matches(raw: Seq<char>, r: Result<SystemDuration, DurationParseError>) -> bool {
    let t = trim(raw);
    if t.len() == 0 {
        r == Err::<SystemDuration, DurationParseError>(DurationParseError::Empty)
    } else {
        let unit = t.last();
        match parse_u64_spec(t.subrange(0, t.len() - 1)) {
            Err(k) => r == Err::<SystemDuration, DurationParseError>(DurationParseError::Number(k)),
            Ok(a) => if unit == 'h' {
                r == Ok::<SystemDuration, DurationParseError>(SystemDuration::Hours(saturate_i64(a)))
            } else if unit == 'd' {
                r == Ok::<SystemDuration, DurationParseError>(SystemDuration::Days(saturate_i64(a)))
            } else {
                r matches Err(DurationParseError::Unit { unit: u, raw: w }) && u@ == seq![unit] && w@ == t
            },
        }
    }
}

/// Reads a retention period such as `24h` or `7d`.
pub fn parse_system_duration(raw: &str) -> (r: Result<SystemDuration, DurationParseError>)
    requires
        trim(raw@).len() == 0 || (trim(raw@).last() as u32) < 0x80,
    ensures
        duration_parse_matches(raw@, r),
{
    let trimmed = trim_str(raw);
    let v = chars_of(trimmed.as_str());
    let n = v.len();
    if n == 0 {
        return Err(DurationParseError::Empty);
    }
    let amount = match parse_u64_range(&v, 0, n - 1) {
        Ok(a) => a,
        Err(k) => {
            return Err(DurationParseError::Number(k));
        },
    };
    let value: i64 = if amount <= 0x7FFF_FFFF_FFFF_FFFFu64 {
        amount as i64
    } else {
        0x7FFF_FFFF_FFFF_FFFFi64
    };
    let unit = v[n - 1];
    if unit == 'h' {
        Ok(SystemDuration::Hours(value))
    } else if unit == 'd' {
        Ok(SystemDuration::Days(value))
    } else {
        let unit_text = string_from_range(&v, n - 1, n);
        assert(v@.subrange(n - 1, n as int) =~= seq![unit]);
        Err(DurationParseError::Unit { unit: unit_text, raw: trimmed })
    }
}

/// A run the server manages, as queue positions see it.
#[derive(Debug, Clone, Copy, PartialEq, Eq)]
pub struct ManagedRunInfo {
    pub run_id: RunId,
    pub status: RunStatus,
    pub created_at: i64,
}

/// A run that takes one of the scheduler's slots: starting, running,
/// blocked or paused.
pub open spec fn occupies_slot(s: RunStatus) -> bool {
    s is Starting || s is Running || s is Blocked || s is Paused
}

/// How many runs take a slot.
pub open spec fn slot_count(runs: Seq<ManagedRunInfo>) -> nat
    decreases runs.len(),
{
    if runs.len() == 0 {
        0
    } else {
        slot_count(runs.drop_last()) + if occupies_slot(runs.last().status) {
            1nat
        } else {
            0nat
        }
    }
}

/// What the scheduler may answer for `runs`: nothing once shutting down or
/// while the runs taking a slot fill the capacity; otherwise the first of
/// the earliest-created queued runs, or nothing when none is queued.
pub open spec fn scheduler_pick(runs: Seq<ManagedRunInfo>, max_concurrent_runs: usize, shutting_down: bool, r: Option<RunId>) -> bool {
    &&& shutting_down ==> r is None
    &&& slot_count(runs) >= max_concurrent_runs ==> r is None
    &&& !shutting_down && slot_count(runs) < max_concurrent_runs ==> match r {
        None => forall|i: int| 0 <= i < runs.len() ==> (#[trigger] runs[i]).status != RunStatus::Queued,
        Some(id) => exists|k: int|
            0 <= k < runs.len() && (#[trigger] runs[k]).run_id == id && runs[k].status == RunStatus::Queued
                && (forall|j: int|
                0 <= j < runs.len() && (#[trigger] runs[j]).status == RunStatus::Queued ==> runs[k].created_at
                    <= runs[j].created_at) && (forall|j: int|
                0 <= j < k && (#[trigger] runs[j]).status == RunStatus::Queued ==> runs[k].created_at
                    < runs[j].created_at),
    }
}

/// Runs at the given distinct positions that are starting, running, blocked
/// or paused number no more than the slots taken.
proof fn lemma_slot_holders_counted(runs: Seq<ManagedRunInfo>, idx: Set<int>)
    requires
        idx.finite(),
        forall|k: int| #[trigger] idx.contains(k) ==> 0 <= k < runs.len() && (runs[k].status is Starting
            || runs[k].status is Running || runs[k].status is Blocked || runs[k].status is Paused),
    ensures
        slot_count(runs) >= idx.len(),
    decreases runs.len(),
{
    if runs.len() == 0 {
        if idx.len() > 0 {
            let k = idx.choose();
            assert(idx.contains(k));
        }
    } else {
        let n = runs.len() - 1;
        let rest = runs.drop_last();
        let idx2 = idx.remove(n);
        assert forall|k: int| #[trigger] idx2.contains(k) implies 0 <= k < rest.len() && (rest[k].status is Starting
            || rest[k].status is Running || rest[k].status is Blocked || rest[k].status is Paused) by {
            assert(rest[k] == runs[k]);
        }
        lemma_slot_holders_counted(rest, idx2);
        if idx.contains(n) {
            assert(idx2.len() == idx.len() - 1);
        } else {
            assert(idx2 =~= idx);
        }
    }
}

/// Every run that is starting, running, blocked or paused holds a
/// scheduler slot: when at least `max_concurrent_runs` runs (at the
/// distinct positions `holders`) are in one of those statuses, no queued run
/// is started.
pub proof fn law_active_runs_hold_scheduler_slots(
    runs: Seq<ManagedRunInfo>,
    holders: Set<int>,
    max_concurrent_runs: usize,
    shutting_down: bool,
    r: Option<RunId>,
)
    requires
        scheduler_pick(runs, max_concurrent_runs, shutting_down, r),
        holders.finite(),
        holders.len() >= max_concurrent_runs,
        forall|k: int| #[trigger] holders.contains(k) ==> 0 <= k < runs.len() && (runs[k].status is Starting
            || runs[k].status is Running || runs[k].status is Blocked || runs[k].status is Paused),
    ensures
        r is None,
{
    lemma_slot_holders_counted(runs, holders);
}

/// Runs in no slot-holding status take no slot: when every run that is
/// starting, running, blocked or paused sits at one of the positions
/// `holders` (positions of runs), there are fewer of those than the capacity, the server is not
/// shutting down and a run is queued, a run is started: the first queued
/// run created no later than any other queued run.
pub proof fn law_free_slot_starts_earliest_queued_run(
    runs: Seq<ManagedRunInfo>,
    holders: Set<int>,
    max_concurrent_runs: usize,
    r: Option<RunId>,
    q: int,
)
    requires
        scheduler_pick(runs, max_concurrent_runs, false, r),
        holders.finite(),
        holders.len() < max_concurrent_runs,
        forall|k: int| #[trigger] holders.contains(k) ==> 0 <= k < runs.len(),
        forall|k: int| 0 <= k < runs.len() && (runs[k].status is Starting
            || runs[k].status is Running || runs[k].status is Blocked || runs[k].status is Paused) ==> #[trigger] holders.contains(k),
        0 <= q < runs.len(),
        runs[q].status == RunStatus::Queued,
    ensures
        r matches Some(id) && exists|k: int|
            0 <= k < runs.len() && #[trigger] runs[k].run_id == id && runs[k].status == RunStatus::Queued
                && runs[k].created_at <= runs[q].created_at,
{
    lemma_slots_within_holders(runs, holders);
    assert(runs[q].status != RunStatus::Queued ==> false);
}

/// The slots taken number no more than any set of positions that holds
/// every starting, running, blocked or paused run.
proof fn lemma_slots_within_holders(runs: Seq<ManagedRunInfo>, holders: Set<int>)
    requires
        holders.finite(),
        forall|k: int| #[trigger] holders.contains(k) ==> 0 <= k < runs.len(),
        forall|k: int| 0 <= k < runs.len() && (runs[k].status is Starting
            || runs[k].status is Running || runs[k].status is Blocked || runs[k].status is Paused) ==> #[trigger] holders.contains(k),
    ensures
        slot_count(runs) <= holders.len(),
    decreases runs.len(),
{
    if runs.len() > 0 {
        let n = runs.len() - 1;
        let rest = runs.drop_last();
        let h2 = holders.remove(n);
        assert forall|k: int| 0 <= k < rest.len() && (rest[k].status is Starting
            || rest[k].status is Running || rest[k].status is Blocked || rest[k].status is Paused) implies #[trigger] h2.contains(k) by {
            assert(rest[k] == runs[k]);
        }
        lemma_slots_within_holders(rest, h2);
        if holders.contains(n) {
            assert(h2.len() == holders.len() - 1);
        } else {
            assert(h2 =~= holders);
        }
    }
}

/// The run the scheduler starts next: none once the server is shutting
/// down, nor while the runs taking a slot fill the capacity; otherwise a
/// queued run created no later than any other queued run (the first such
/// one in the order given), if any.
pub fn next_run_to_start(runs: &Vec<ManagedRunInfo>, max_concurrent_runs: usize, shutting_down: bool) -> (r: Option<RunId>)
    ensures
        scheduler_pick(runs@, max_concurrent_runs, shutting_down, r),
        shutting_down ==> r is None,
        slot_count(runs@) >= max_concurrent_runs ==> r is None,
        !shutting_down && slot_count(runs@) < max_concurrent_runs ==> match r {
            None => forall|i: int| 0 <= i < runs@.len() ==> (#[trigger] runs@[i]).status != RunStatus::Queued,
            Some(id) => exists|k: int|
                0 <= k < runs@.len() && (#[trigger] runs@[k]).run_id == id && runs@[k].status == RunStatus::Queued
                    && (forall|j: int|
                    0 <= j < runs@.len() && (#[trigger] runs@[j]).status == RunStatus::Queued ==> runs@[k].created_at
                        <= runs@[j].created_at) && (forall|j: int|
                    0 <= j < k && (#[trigger] runs@[j]).status == RunStatus::Queued ==> runs@[k].created_at
                        < runs@[j].created_at),
        },
{
    if shutting_down {
        return None;
    }
    let mut active: usize = 0;
    let mut i: usize = 0;
    while i < runs.len()
        invariant
            i <= runs@.len(),
            active == slot_count(runs@.take(i as int)),
            active <= i,
        decreases runs.len() - i,
    {
        proof {
            assert(runs@.take(i + 1).drop_last() =~= runs@.take(i as int));
        }
        let st = runs[i].status;
        if matches!(st, RunStatus::Starting | RunStatus::Running | RunStatus::Blocked { .. } | RunStatus::Paused { .. }) {
            active = active + 1;
        }
        i = i + 1;
    }
    proof {
        assert(runs@.take(runs@.len() as int) =~= runs@);
    }
    if active >= max_concurrent_runs {
        return None;
    }
    let mut best: Option<usize> = None;
    let mut j: usize = 0;
    while j < runs.len()
        invariant
            j <= runs@.len(),
            match best {
                None => forall|m: int| 0 <= m < j ==> (#[trigger] runs@[m]).status != RunStatus::Queued,
                Some(b) => b < j && runs@[b as int].status == RunStatus::Queued && (forall|m: int|
                    0 <= m < j && (#[trigger] runs@[m]).status == RunStatus::Queued ==> runs@[b as int].created_at
                        <= runs@[m].created_at) && (forall|m: int|
                    0 <= m < b && (#[trigger] runs@[m]).status == RunStatus::Queued ==> runs@[b as int].created_at
                        < runs@[m].created_at),
            },
        decreases runs.len() - j,
    {
        if runs[j].status == RunStatus::Queued {
            match best {
                None => {
                    best = Some(j);
                },
                Some(b) => {
                    if runs[j].created_at < runs[b].created_at {
                        best = Some(j);
                    }
                },
            }
        }
        j = j + 1;
    }
    match best {
        None => None,
        Some(b) => Some(runs[b].run_id),
    }
}

/// The queued runs, in the order given.
pub open spec fn queued_runs(runs: Seq<ManagedRunInfo>) -> Seq<ManagedRunInfo> {
    runs.filter(|r: ManagedRunInfo| r.status == RunStatus::Queued)
}

/// Sort keys of runs: their creation times.
pub open spec fn created_keys(runs: Seq<ManagedRunInfo>) -> Seq<(i128, u128)> {
    runs.map_values(|r: ManagedRunInfo| (r.created_at as i128, 0u128))
}

/// The 1-based queue position of each queued run, oldest first; runs
/// created at the same moment keep the order given.
pub fn compute_queue_positions(runs: &Vec<ManagedRunInfo>) -> (r: Vec<(RunId, i64)>)
    requires
        runs@.len() < i64::MAX,
    ensures
        exists|order: Seq<usize>|
            #![trigger is_order_of(order, queued_runs(runs@).len())]
            is_order_of(order, queued_runs(runs@).len()) && stably_sorted(created_keys(queued_runs(runs@)), order)
                && r@.len() == queued_runs(runs@).len() && forall|i: int|
                0 <= i < r@.len() ==> #[trigger] r@[i] == (queued_runs(runs@)[order[i] as int].run_id, (i + 1) as i64),
{
    let ghost pred = |r: ManagedRunInfo| r.status == RunStatus::Queued;
    let mut kept: Vec<ManagedRunInfo> = Vec::new();
    let mut i: usize = 0;
    while i < runs.len()
        invariant
            i <= runs@.len(),
            pred == (|r: ManagedRunInfo| r.status == RunStatus::Queued),
            kept@ == runs@.take(i as int).filter(pred),
        decreases runs.len() - i,
    {
        proof {
            reveal(Seq::filter);
            assert(runs@.take(i + 1).drop_last() =~= runs@.take(i as int));
        }
        if runs[i].status == RunStatus::Queued {
            kept.push(runs[i]);
        }
        i = i + 1;
    }
    proof {
        assert(runs@.take(runs@.len() as int) =~= runs@);
        runs@.lemma_filter_len(pred);
    }
    let mut keys: Vec<(i128, u128)> = Vec::new();
    let mut j: usize = 0;
    while j < kept.len()
        invariant
            j <= kept@.len(),
            keys@.len() == j,
            forall|t: int| 0 <= t < j ==> #[trigger] keys@[t] == (kept@[t].created_at as i128, 0u128),
        decreases kept.len() - j,
    {
        keys.push((kept[j].created_at as i128, 0u128));
        j = j + 1;
    }
    assert(keys@ =~= created_keys(kept@));
    let order = stable_order(&keys);
    let mut r: Vec<(RunId, i64)> = Vec::new();
    let mut k: usize = 0;
    while k < order.len()
        invariant
            k <= order@.len(),
            is_order_of(order@, kept@.len()),
            kept@.len() < i64::MAX,
            r@.len() == k,
            forall|t: int| 0 <= t < k ==> #[trigger] r@[t] == (kept@[order@[t] as int].run_id, (t + 1) as i64),
        decreases order.len() - k,
    {
        let pos = order[k];
        r.push((kept[pos].run_id, (k + 1) as i64));
        k = k + 1;
    }
    proof {
        let q = queued_runs(runs@);
        assert(kept@ == q);
        assert(is_order_of(order@, q.len()));
        assert(stably_sorted(created_keys(q), order@));
    }
    r
}

} // verus!
