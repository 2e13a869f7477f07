use fabro::api::{DurationParseError, SystemDuration};
use fabro::ids::RunId;
use fabro::maintenance::{
    build_prune_plan, disk_usage_response, staleness_threshold, DiskUsageRunRow, PruneCandidate,
    PruneRunEntry, ScannedRun,
};
use fabro::status::{FailureReason, RunStatus, SuccessReason};

fn scanned(id: u128, status: RunStatus, size: u64) -> ScannedRun {
    ScannedRun {
        run_id: RunId::from_u128(id),
        dir_name: format!("run-{id}"),
        workflow_name: "ship".to_string(),
        status,
        start_time: "2026-01-01T00:00:00Z".to_string(),
        start_time_ms: Some(0),
        end_time_ms: None,
        size_bytes: size,
    }
}

#[test]
fn disk_usage_counts_active_and_reclaimable_bytes() {
    let runs = vec![
        scanned(1, RunStatus::Running, 100),
        scanned(2, RunStatus::Succeeded { reason: SuccessReason::Completed }, 40),
        scanned(3, RunStatus::Dead, 2),
    ];
    let report = disk_usage_response(&runs, &vec![5, 7], false);
    let s = &report.summary;
    assert_eq!((s[0].type_.as_str(), s[0].count, s[0].active, s[0].size_bytes, s[0].reclaimable_bytes), ("runs", 3, Some(1), 142, 42));
    assert_eq!((s[1].type_.as_str(), s[1].count, s[1].active, s[1].size_bytes, s[1].reclaimable_bytes), ("logs", 2, None, 12, 12));
    assert_eq!(report.total_size_bytes, 154);
    assert_eq!(report.total_reclaimable_bytes, 54);
    assert_eq!(report.runs, None);

    let verbose = disk_usage_response(&runs, &vec![], true);
    let rows = verbose.runs.unwrap();
    assert_eq!(rows.len(), 3);
    assert_eq!(rows[0], DiskUsageRunRow {
        run_id: RunId::from_u128(1),
        workflow_name: "ship".to_string(),
        status: RunStatus::Running,
        start_time: "2026-01-01T00:00:00Z".to_string(),
        size_bytes: 100,
        reclaimable: false,
    });
    assert!(rows[1].reclaimable);
}

#[test]
fn disk_usage_of_nothing_is_zero() {
    let report = disk_usage_response(&vec![], &vec![], true);
    assert_eq!(report.total_size_bytes, 0);
    assert_eq!(report.summary[0].count, 0);
    assert_eq!(report.runs, Some(vec![]));
}

#[test]
fn disk_usage_saturates_sizes_beyond_i64() {
    let runs = vec![scanned(1, RunStatus::Dead, u64::MAX)];
    let report = disk_usage_response(&runs, &vec![], true);
    assert_eq!(report.summary[0].size_bytes, i64::MAX);
    assert_eq!(report.runs.unwrap()[0].size_bytes, i64::MAX);
}

#[test]
fn staleness_defaults_to_a_day_without_other_filters() {
    assert_eq!(staleness_threshold(None, false), Ok(Some(SystemDuration::Hours(24))));
    assert_eq!(staleness_threshold(None, true), Ok(None));
    assert_eq!(staleness_threshold(Some("7d"), true), Ok(Some(SystemDuration::Days(7))));
    assert_eq!(staleness_threshold(Some(""), false), Err(DurationParseError::Empty));
}

fn candidate(id: u128, status: RunStatus, start: Option<i64>, end: Option<i64>, size: u64) -> PruneCandidate {
    PruneCandidate {
        run_id: RunId::from_u128(id),
        dir_name: format!("d{id}"),
        workflow_name: "wf".to_string(),
        status,
        start_time_ms: start,
        end_time_ms: end,
        size_bytes: size,
    }
}

#[test]
fn prune_keeps_active_and_recent_runs() {
    let failed = RunStatus::Failed { reason: FailureReason::WorkflowError };
    let cands = vec![
        candidate(1, failed, Some(10), Some(50), 5),
        candidate(2, RunStatus::Running, Some(10), None, 7),
        candidate(3, failed, Some(10), Some(150), 9),
        candidate(4, failed, Some(20), None, 11),
        candidate(5, failed, None, None, 13),
    ];
    let plan = build_prune_plan(&cands, Some(100));
    assert_eq!(plan.run_ids, vec![RunId::from_u128(1), RunId::from_u128(4)]);
    assert_eq!(plan.total_size_bytes, 16);
    assert_eq!(plan.rows[1], PruneRunEntry {
        run_id: RunId::from_u128(4),
        dir_name: "d4".to_string(),
        workflow_name: "wf".to_string(),
        size_bytes: 11,
    });

    let no_cutoff = build_prune_plan(&cands, None);
    assert_eq!(no_cutoff.run_ids.len(), 4);
    assert_eq!(no_cutoff.total_size_bytes, 38);
}
