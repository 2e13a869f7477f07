use fabro::api::{
    active_run_delete_message, check_delete_without_force, fallback_route, FallbackRoute, next_run_to_start, board_column, board_columns, clone_sandbox_can_use_github_credentials,
    compute_queue_positions, default_command_log_limit, default_page_limit,
    failure_for_incomplete_run, github_pull_request_not_found_message, paginate_items,
    parse_system_duration, removed_web_route, short_error_line, should_reconcile_run_on_startup,
    to_i64, unquote_etag, validate_github_slug, validate_relative_artifact_path, worker_mode_arg,
    BoardColumn, DurationParseError, IncompleteRunError, ListRunsParams, ManagedRunInfo,
    PaginationParams, RunControlRequest, RunExecutionMode, SystemDuration, MAX_SHORT_LEN,
};
use fabro::ids::RunId;
use fabro::status::{BlockedReason, FailureReason, RunControlAction, RunStatus, SuccessReason};
use fabro::text::IntErrorKind;

#[test]
fn short_error_line_returns_fallback_for_empty_input() {
    assert_eq!(short_error_line(""), "error");
}

#[test]
fn short_error_line_returns_first_non_empty_trimmed_line() {
    let input = "   \n\t\n  first line  \nsecond line";
    assert_eq!(short_error_line(input), "first line");
}

#[test]
fn short_error_line_truncates_long_input_with_ascii_ellipsis() {
    let input = "a".repeat(MAX_SHORT_LEN + 50);
    let result = short_error_line(&input);
    let expected = format!("{}...", "a".repeat(MAX_SHORT_LEN));
    assert_eq!(result, expected);
}

#[test]
fn short_error_line_keeps_a_line_of_exactly_the_limit() {
    let input = "b".repeat(MAX_SHORT_LEN);
    assert_eq!(short_error_line(&input), input);
    assert_eq!(short_error_line(" \n \n"), "error");
}

#[test]
fn pagination_clamps_limit_and_reports_more() {
    let items: Vec<u32> = (0..10).collect();
    let (page, more) = paginate_items(items.clone(), &PaginationParams { limit: 3, offset: 2 });
    assert_eq!(page, vec![2, 3, 4]);
    assert!(more);
    let (page, more) = paginate_items(items.clone(), &PaginationParams { limit: 0, offset: 9 });
    assert_eq!(page, vec![9]);
    assert!(!more);
    let (page, more) = paginate_items(items.clone(), &PaginationParams { limit: 500, offset: 0 });
    assert_eq!(page.len(), 10);
    assert!(!more);
    let (page, more) = paginate_items(items, &PaginationParams { limit: 5, offset: 50 });
    assert!(page.is_empty());
    assert!(!more);
    assert_eq!(default_page_limit(), 20);
    let params = ListRunsParams { limit: 7, offset: 1, include_archived: false };
    assert_eq!(params.pagination(), PaginationParams { limit: 7, offset: 1 });
}

#[test]
fn board_places_statuses_in_columns() {
    assert_eq!(board_column(RunStatus::Queued, false), Some(BoardColumn::Queued));
    assert_eq!(board_column(RunStatus::Submitted, false), Some(BoardColumn::Queued));
    assert_eq!(board_column(RunStatus::Starting, false), Some(BoardColumn::Initializing));
    assert_eq!(
        board_column(RunStatus::Paused { prior_block: None }, false),
        Some(BoardColumn::Running)
    );
    assert_eq!(
        board_column(
            RunStatus::Blocked {
                blocked_reason: BlockedReason::HumanInputRequired
            },
            false
        ),
        Some(BoardColumn::Blocked)
    );
    assert_eq!(board_column(RunStatus::Dead, false), Some(BoardColumn::Failed));
    assert_eq!(board_column(RunStatus::Removing, false), None);
    assert_eq!(
        board_column(
            RunStatus::Succeeded {
                reason: SuccessReason::Completed
            },
            true
        ),
        Some(BoardColumn::Archived)
    );
    let cols = board_columns(false);
    let names: Vec<&str> = cols.iter().map(|c| c.name.as_str()).collect();
    assert_eq!(names, vec!["Queued", "Initializing", "Running", "Blocked", "Succeeded", "Failed"]);
    let cols = board_columns(true);
    assert_eq!(cols.len(), 7);
    assert_eq!(cols[6].id, BoardColumn::Archived);
}

#[test]
fn small_server_rules() {
    assert!(removed_web_route("/setup/complete"));
    assert!(removed_web_route("/install/step"));
    assert!(!removed_web_route("/instal"));
    assert!(!removed_web_route("/runs"));
    assert!(clone_sandbox_can_use_github_credentials("docker"));
    assert!(clone_sandbox_can_use_github_credentials("daytona"));
    assert!(!clone_sandbox_can_use_github_credentials("local"));
    assert_eq!(to_i64(5), 5);
    assert_eq!(to_i64(u64::MAX), i64::MAX);
    assert_eq!(worker_mode_arg(RunExecutionMode::Resume), "resume");
    assert!(RunControlRequest::Interrupt.requires_active_api_session());
    assert!(!RunControlRequest::Steer { text: "go".to_string() }.requires_active_api_session());
    assert!(should_reconcile_run_on_startup(RunStatus::Running));
    assert!(!should_reconcile_run_on_startup(RunStatus::Submitted));
    assert!(!should_reconcile_run_on_startup(RunStatus::Dead));
    assert_eq!(default_command_log_limit(), 65_536);
}

#[test]
fn incomplete_runs_fail_as_cancelled_only_when_cancel_was_pending() {
    assert_eq!(
        failure_for_incomplete_run(Some(RunControlAction::Cancel), "x".to_string()),
        (IncompleteRunError::Cancelled, FailureReason::Cancelled)
    );
    assert_eq!(
        failure_for_incomplete_run(Some(RunControlAction::Pause), "stopped".to_string()),
        (IncompleteRunError::Engine("stopped".to_string()), FailureReason::Terminated)
    );
}

#[test]
fn etags_lose_their_quotes() {
    assert_eq!(unquote_etag("\"abc\""), "abc");
    assert_eq!(unquote_etag("abc"), "abc");
    assert_eq!(unquote_etag("\""), "\"");
    assert_eq!(unquote_etag("\"\""), "");
}

#[test]
fn github_slugs_and_artifact_paths_are_validated() {
    assert_eq!(validate_github_slug("owner", "fabro-sh", 39), Ok(()));
    assert_eq!(
        validate_github_slug("owner", "..", 39),
        Err("invalid github owner".to_string())
    );
    assert_eq!(
        validate_github_slug("repo", "a b", 100),
        Err("invalid github repo".to_string())
    );
    assert!(validate_github_slug("repo", "abcd", 3).is_err());
    assert_eq!(
        validate_relative_artifact_path("path", "out/report.txt"),
        Ok("out/report.txt".to_string())
    );
    assert_eq!(
        validate_relative_artifact_path("path", ""),
        Err("path must not be empty".to_string())
    );
    assert_eq!(
        validate_relative_artifact_path("path", "a\\b"),
        Err("path must not contain backslashes".to_string())
    );
    assert_eq!(
        validate_relative_artifact_path("path", "a//b"),
        Err("path must not contain empty path segments".to_string())
    );
    assert_eq!(
        validate_relative_artifact_path("path", "/etc"),
        Err("path must not contain empty path segments".to_string())
    );
    assert_eq!(
        validate_relative_artifact_path("path", "a/../b"),
        Err("path must be a relative path without '.' or '..' segments".to_string())
    );
}

#[test]
fn messages_name_the_run_and_the_pull_request() {
    let run_id: RunId = "01JT56VE4Z5NZ814GZN2JZD65A".parse().unwrap();
    assert_eq!(
        active_run_delete_message(run_id, RunStatus::Running),
        "cannot remove active run 01JT56VE4Z5N (status: running, use force=true or --force to force)"
    );
    assert_eq!(
        github_pull_request_not_found_message(42),
        "Pull request #42 was deleted on GitHub."
    );
}

#[test]
fn durations_are_hours_or_days() {
    assert_eq!(parse_system_duration(" 24h "), Ok(SystemDuration::Hours(24)));
    assert_eq!(parse_system_duration("7d"), Ok(SystemDuration::Days(7)));
    assert_eq!(parse_system_duration("   "), Err(DurationParseError::Empty));
    assert_eq!(
        parse_system_duration("h"),
        Err(DurationParseError::Number(IntErrorKind::Empty))
    );
    assert_eq!(
        parse_system_duration("1.5h"),
        Err(DurationParseError::Number(IntErrorKind::InvalidDigit))
    );
    assert_eq!(
        parse_system_duration("99999999999999999999d"),
        Err(DurationParseError::Number(IntErrorKind::PosOverflow))
    );
    let err = parse_system_duration("3w").unwrap_err();
    assert_eq!(
        err,
        DurationParseError::Unit { unit: "w".to_string(), raw: "3w".to_string() }
    );
    assert_eq!(err.to_string(), "invalid duration unit 'w' in '3w' (expected 'h' or 'd')");
    assert_eq!(
        parse_system_duration("18446744073709551615h"),
        Ok(SystemDuration::Hours(i64::MAX))
    );
}

#[test]
fn queue_positions_count_queued_runs_oldest_first() {
    let run = |id: u128, status: RunStatus, created_at: i64| ManagedRunInfo {
        run_id: RunId::from_u128(id),
        status,
        created_at,
    };
    let runs = vec![
        run(1, RunStatus::Queued, 30),
        run(2, RunStatus::Running, 5),
        run(3, RunStatus::Queued, 10),
        run(4, RunStatus::Queued, 30),
    ];
    let positions = compute_queue_positions(&runs);
    assert_eq!(positions, vec![
        (RunId::from_u128(3), 1),
        (RunId::from_u128(1), 2),
        (RunId::from_u128(4), 3),
    ]);
}

#[test]
fn deleting_an_active_run_needs_force() {
    let run_id: RunId = "01JT56VE4Z5NZ814GZN2JZD65A".parse().unwrap();
    assert_eq!(
        check_delete_without_force(run_id, Some(RunStatus::Running), Some(RunStatus::Dead)),
        Err("cannot remove active run 01JT56VE4Z5N (status: running, use force=true or --force to force)".to_string())
    );
    // The tracked status decides over the stored one.
    assert_eq!(
        check_delete_without_force(run_id, Some(RunStatus::Dead), Some(RunStatus::Running)),
        Ok(())
    );
    assert!(check_delete_without_force(run_id, None, Some(RunStatus::Queued)).is_err());
    assert_eq!(check_delete_without_force(run_id, None, Some(RunStatus::Removing)), Ok(()));
    assert_eq!(check_delete_without_force(run_id, None, None), Ok(()));
}

fn info(id: u128, status: RunStatus, created_at: i64) -> ManagedRunInfo {
    ManagedRunInfo { run_id: RunId::from_u128(id), status, created_at }
}

#[test]
fn the_scheduler_starts_the_oldest_queued_run_while_slots_are_free() {
    let runs = vec![
        info(1, RunStatus::Running, 5),
        info(2, RunStatus::Queued, 30),
        info(3, RunStatus::Queued, 20),
        info(4, RunStatus::Queued, 20),
        info(5, RunStatus::Succeeded { reason: SuccessReason::Completed }, 1),
    ];
    assert_eq!(next_run_to_start(&runs, 2, false), Some(RunId::from_u128(3)));
    assert_eq!(next_run_to_start(&runs, 1, false), None);
    let paused = vec![info(1, RunStatus::Paused { prior_block: None }, 5), info(2, RunStatus::Queued, 6)];
    assert_eq!(next_run_to_start(&paused, 1, false), None);
    assert_eq!(next_run_to_start(&paused, 2, false), Some(RunId::from_u128(2)));
    assert_eq!(next_run_to_start(&vec![info(1, RunStatus::Submitted, 1)], 4, false), None);
}

#[test]
fn the_scheduler_starts_nothing_once_shutdown_has_begun() {
    let runs = vec![info(1, RunStatus::Queued, 5), info(2, RunStatus::Queued, 6)];
    assert_eq!(next_run_to_start(&runs, 4, false), Some(RunId::from_u128(1)));
    assert_eq!(next_run_to_start(&runs, 4, true), None);
}

#[test]
fn fallback_routes_send_demo_api_requests_to_the_demo_router() {
    assert_eq!(fallback_route("/api/v1/runs", true, Some("1"), true), FallbackRoute::Demo);
    assert_eq!(fallback_route("/api/v1/runs", true, Some("1"), false), FallbackRoute::Api);
    assert_eq!(fallback_route("/api/v1/runs", true, Some("0"), true), FallbackRoute::Api);
    assert_eq!(fallback_route("/api/v1/runs", false, None, true), FallbackRoute::Api);
    assert_eq!(fallback_route("/health", true, Some("1"), true), FallbackRoute::Api);
    assert_eq!(fallback_route("/auth/login", true, None, true), FallbackRoute::Api);
    assert_eq!(fallback_route("/auth/login", true, None, false), FallbackRoute::NotFound);
    assert_eq!(fallback_route("/install/step", true, None, true), FallbackRoute::NotFound);
    assert_eq!(fallback_route("/runs/abc", true, None, true), FallbackRoute::Static);
    assert_eq!(fallback_route("/runs/abc", false, None, true), FallbackRoute::NotFound);
    assert_eq!(fallback_route("/runs/abc", true, None, false), FallbackRoute::NotFound);
}
