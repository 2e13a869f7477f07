//! Storage upkeep: the disk-usage report over the run directories and log
//! files the server keeps, and which runs a prune request removes.

use vstd::prelude::*;
use crate::api::{
    DurationParseError, SystemDuration, duration_parse_matches, parse_system_duration, saturate_i64, to_i64,
};
use crate::ids::RunId;
use crate::status::RunStatus;
use crate::text::trim;

verus! {

/// A run directory found in storage: what the run summary says of it, and
/// the bytes its files take.
#[derive(Debug, Clone, PartialEq, Eq)]
pub struct ScannedRun {
    pub run_id: RunId,
    pub dir_name: String,
    pub workflow_name: String,
    pub status: RunStatus,
    pub start_time: String,
    pub start_time_ms: Option<i64>,
    pub end_time_ms: Option<i64>,
    pub size_bytes: u64,
}

/// One line of the disk-usage summary: a kind of stored item, how many
/// there are (and how many belong to active runs), their size and how much
/// of it a prune could free.
#[derive(Debug, Clone, PartialEq, Eq)]
pub struct DiskUsageSummaryRow {
    pub type_: String,
    pub count: i64,
    pub active: Option<i64>,
    pub size_bytes: i64,
    pub reclaimable_bytes: i64,
}

/// One run in a verbose disk-usage report.
#[derive(Debug, Clone, PartialEq, Eq)]
pub struct DiskUsageRunRow {
    pub run_id: RunId,
    pub workflow_name: String,
    pub status: RunStatus,
    pub start_time: String,
    pub size_bytes: i64,
    pub reclaimable: bool,
}

/// The disk-usage report.
#[derive(Debug, Clone, PartialEq, Eq)]
pub struct DiskUsageResponse {
    pub summary: Vec<DiskUsageSummaryRow>,
    pub total_size_bytes: i64,
    pub total_reclaimable_bytes: i64,
    pub runs: Option<Vec<DiskUsageRunRow>>,
}

/// Total bytes of the runs.
pub open spec fn runs_size(runs: Seq<ScannedRun>) -> int
    decreases runs.len(),
{
    if runs.len() == 0 {
        0
    } else {
        runs_size(runs.drop_last()) + runs.last().size_bytes
    }
}

/// Total bytes of the runs that are not active (what a prune could free).
pub open spec fn reclaimable_size(runs: Seq<ScannedRun>) -> int
    decreases runs.len(),
{
    if runs.len() == 0 {
        0
    } else {
        reclaimable_size(runs.drop_last()) + if runs.last().status.active() {
            0
        } else {
            runs.last().size_bytes as int
        }
    }
}

/// How many of the runs are active.
pub open spec fn active_count(runs: Seq<ScannedRun>) -> int
    decreases runs.len(),
{
    if runs.len() == 0 {
        0
    } else {
        active_count(runs.drop_last()) + if runs.last().status.active() {
            1int
        } else {
            0
        }
    }
}

/// Total bytes of the log files.
pub open spec fn logs_size(sizes: Seq<u64>) -> int
    decreases sizes.len(),
{
    if sizes.len() == 0 {
        0
    } else {
        logs_size(sizes.drop_last()) + sizes.last()
    }
}

/// A count or size as `i64`, saturating.
pub open spec fn sat(x: int) -> int {
    if x <= i64::MAX {
        x
    } else {
        i64::MAX as int
    }
}

/// The verbose row of a run.
pub open spec fn disk_row_of(r: ScannedRun) -> DiskUsageRunRow {
    DiskUsageRunRow {
        run_id: r.run_id,
        workflow_name: r.workflow_name,
        status: r.status,
        start_time: r.start_time,
        size_bytes: saturate_i64(r.size_bytes),
        reclaimable: !r.status.active(),
    }
}

proof fn lemma_sums_bounded(runs: Seq<ScannedRun>)
    ensures
        0 <= reclaimable_size(runs) <= runs_size(runs),
        0 <= active_count(runs) <= runs.len(),
    decreases runs.len(),
{
    if runs.len() > 0 {
        lemma_sums_bounded(runs.drop_last());
    }
}

proof fn lemma_logs_nonneg(sizes: Seq<u64>)
    ensures
        0 <= logs_size(sizes),
    decreases sizes.len(),
{
    if sizes.len() > 0 {
        lemma_logs_nonneg(sizes.drop_last());
    }
}

fn usage_as_i64(x: u64) -> (r: i64)
    ensures
        r == sat(x as int),
{
    to_i64(x)
}

/// The disk-usage report over the scanned runs and the sizes of the log
/// files: a `runs` line (count, active count, size, size of inactive runs),
/// a `logs` line (all of it reclaimable), the totals, and with `verbose` one
/// row per run in the order scanned. Counts and sizes saturate at
/// `i64::MAX`.
pub fn disk_usage_response(runs: &Vec<ScannedRun>, log_sizes: &Vec<u64>, verbose: bool) -> (r: DiskUsageResponse)
    requires
        runs_size(runs@) + logs_size(log_sizes@) <= u64::MAX,
    ensures
        r.summary@.len() == 2,
        r.summary@[0] == (DiskUsageSummaryRow {
            type_: r.summary@[0].type_,
            count: sat(runs@.len() as int) as i64,
            active: Some(sat(active_count(runs@)) as i64),
            size_bytes: sat(runs_size(runs@)) as i64,
            reclaimable_bytes: sat(reclaimable_size(runs@)) as i64,
        }),
        r.summary@[0].type_@ == "runs"@,
        r.summary@[1] == (DiskUsageSummaryRow {
            type_: r.summary@[1].type_,
            count: sat(log_sizes@.len() as int) as i64,
            active: None,
            size_bytes: sat(logs_size(log_sizes@)) as i64,
            reclaimable_bytes: sat(logs_size(log_sizes@)) as i64,
        }),
        r.summary@[1].type_@ == "logs"@,
        r.total_size_bytes == sat(runs_size(runs@) + logs_size(log_sizes@)),
        r.total_reclaimable_bytes == sat(reclaimable_size(runs@) + logs_size(log_sizes@)),
        verbose ==> (r.runs matches Some(rows) && rows@ == runs@.map_values(|x: ScannedRun| disk_row_of(x))),
        !verbose ==> r.runs is None,
{
    proof {
        lemma_sums_bounded(runs@);
        lemma_logs_nonneg(log_sizes@);
    }
    let mut active: u64 = 0;
    let mut total: u64 = 0;
    let mut reclaimable: u64 = 0;
    let mut rows: Vec<DiskUsageRunRow> = Vec::new();
    let mut i: usize = 0;
    while i < runs.len()
        invariant
            i <= runs@.len(),
            runs_size(runs@) + logs_size(log_sizes@) <= u64::MAX,
            0 <= logs_size(log_sizes@),
            total == runs_size(runs@.take(i as int)),
            reclaimable == reclaimable_size(runs@.take(i as int)),
            active == active_count(runs@.take(i as int)),
            verbose ==> rows@ == runs@.take(i as int).map_values(|x: ScannedRun| disk_row_of(x)),
        decreases runs.len() - i,
    {
        let run = &runs[i];
        proof {
            let t = runs@.take(i + 1);
            assert(t.drop_last() =~= runs@.take(i as int));
            assert(t.last() == runs@[i as int]);
            lemma_prefix_size(runs@, i + 1);
            lemma_sums_bounded(t);
            lemma_sums_bounded(runs@.take(i as int));
        }
        total = total + run.size_bytes;
        if run.status.is_active() {
            active = active + 1;
        } else {
            reclaimable = reclaimable + run.size_bytes;
        }
        if verbose {
            rows.push(DiskUsageRunRow {
                run_id: run.run_id,
                workflow_name: run.workflow_name.clone(),
                status: run.status,
                start_time: run.start_time.clone(),
                size_bytes: to_i64(run.size_bytes),
                reclaimable: !run.status.is_active(),
            });
            proof {
                assert(rows@ =~= runs@.take(i + 1).map_values(|x: ScannedRun| disk_row_of(x)));
            }
        }
        i = i + 1;
    }
    proof {
        assert(runs@.take(runs@.len() as int) =~= runs@);
    }
    let mut log_total: u64 = 0;
    let mut j: usize = 0;
    while j < log_sizes.len()
        invariant
            j <= log_sizes@.len(),
            total == runs_size(runs@),
            0 <= reclaimable_size(runs@) <= runs_size(runs@),
            runs_size(runs@) + logs_size(log_sizes@) <= u64::MAX,
            log_total == logs_size(log_sizes@.take(j as int)),
        decreases log_sizes.len() - j,
    {
        proof {
            let t = log_sizes@.take(j + 1);
            assert(t.drop_last() =~= log_sizes@.take(j as int));
            lemma_prefix_logs(log_sizes@, j + 1);
        }
        log_total = log_total + log_sizes[j];
        j = j + 1;
    }
    proof {
        assert(log_sizes@.take(log_sizes@.len() as int) =~= log_sizes@);
    }
    let runs_row = DiskUsageSummaryRow {
        type_: "runs".to_string(),
        count: usage_as_i64(runs.len() as u64),
        active: Some(usage_as_i64(active)),
        size_bytes: usage_as_i64(total),
        reclaimable_bytes: usage_as_i64(reclaimable),
    };
    let logs_row = DiskUsageSummaryRow {
        type_: "logs".to_string(),
        count: usage_as_i64(log_sizes.len() as u64),
        active: None,
        size_bytes: usage_as_i64(log_total),
        reclaimable_bytes: usage_as_i64(log_total),
    };
    let mut summary: Vec<DiskUsageSummaryRow> = Vec::new();
    summary.push(runs_row);
    summary.push(logs_row);
    DiskUsageResponse {
        summary,
        total_size_bytes: usage_as_i64(total + log_total),
        total_reclaimable_bytes: usage_as_i64(reclaimable + log_total),
        runs: if verbose {
            Some(rows)
        } else {
            None
        },
    }
}

proof fn lemma_prefix_size(runs: Seq<ScannedRun>, k: int)
    requires
        0 <= k <= runs.len(),
    ensures
        runs_size(runs.take(k)) <= runs_size(runs),
    decreases runs.len() - k,
{
    if k < runs.len() {
        lemma_prefix_size(runs, k + 1);
        assert(runs.take(k + 1).drop_last() =~= runs.take(k));
    } else {
        assert(runs.take(k) =~= runs);
    }
}

proof fn lemma_prefix_logs(sizes: Seq<u64>, k: int)
    requires
        0 <= k <= sizes.len(),
    ensures
        logs_size(sizes.take(k)) <= logs_size(sizes),
    decreases sizes.len() - k,
{
    if k < sizes.len() {
        lemma_prefix_logs(sizes, k + 1);
        assert(sizes.take(k + 1).drop_last() =~= sizes.take(k));
    } else {
        assert(sizes.take(k) =~= sizes);
    }
}

// ---------------------------------------------------------------------------
// Pruning

/// The age limit a prune request sets: the requested one read as a
/// duration; without one, a day unless the request narrows the runs by
/// time, workflow or labels.
pub fn staleness_threshold(older_than: Option<&str>, has_explicit_filters: bool) -> (r: Result<
    Option<SystemDuration>,
    DurationParseError,
>)
    requires
        older_than matches Some(s) ==> trim(s@).len() == 0 || (trim(s@).last() as u32) < 0x80,
    ensures
        older_than matches Some(s) ==> match r {
            Ok(Some(d)) => duration_parse_matches(s@, Ok(d)),
            Ok(None) => false,
            Err(e) => duration_parse_matches(s@, Err(e)),
        },
        older_than is None && has_explicit_filters ==> r == Ok::<Option<SystemDuration>, DurationParseError>(None),
        older_than is None && !has_explicit_filters ==> r == Ok::<Option<SystemDuration>, DurationParseError>(
            Some(SystemDuration::Hours(24)),
        ),
{
    match older_than {
        Some(s) => match parse_system_duration(s) {
            Ok(d) => Ok(Some(d)),
            Err(e) => Err(e),
        },
        None => if has_explicit_filters {
            Ok(None)
        } else {
            Ok(Some(SystemDuration::Hours(24)))
        },
    }
}

/// A run a prune request matched (by time, workflow, labels and orphan
/// status): its id, directory, workflow, status, when it started and ended,
/// and its size.
#[derive(Debug, Clone, PartialEq, Eq)]
pub struct PruneCandidate {
    pub run_id: RunId,
    pub dir_name: String,
    pub workflow_name: String,
    pub status: RunStatus,
    pub start_time_ms: Option<i64>,
    pub end_time_ms: Option<i64>,
    pub size_bytes: u64,
}

/// One run a prune removes.
#[derive(Debug, Clone, PartialEq, Eq)]
pub struct PruneRunEntry {
    pub run_id: RunId,
    pub dir_name: String,
    pub workflow_name: String,
    pub size_bytes: i64,
}

/// The runs a prune removes, their rows, and the bytes it frees.
#[derive(Debug, Clone, PartialEq, Eq)]
pub struct PrunePlan {
    pub run_ids: Vec<RunId>,
    pub rows: Vec<PruneRunEntry>,
    pub total_size_bytes: u64,
}

/// A matched run is pruned when it is not active and, if there is a cutoff,
/// it ended (or, failing that, started) before it.
pub open spec fn prunable(c: PruneCandidate, cutoff_ms: Option<i64>) -> bool {
    &&& !c.status.active()
    &&& match cutoff_ms {
        None => true,
        Some(cut) => match (if c.end_time_ms is Some { c.end_time_ms } else { c.start_time_ms }) {
            Some(t) => t < cut,
            None => false,
        },
    }
}

/// The matched runs a prune removes, in the order given.
pub open spec fn pruned(cands: Seq<PruneCandidate>, cutoff_ms: Option<i64>) -> Seq<PruneCandidate> {
    cands.filter(|c: PruneCandidate| prunable(c, cutoff_ms))
}

/// The row of a pruned run.
pub open spec fn prune_row_of(c: PruneCandidate) -> PruneRunEntry {
    PruneRunEntry {
        run_id: c.run_id,
        dir_name: c.dir_name,
        workflow_name: c.workflow_name,
        size_bytes: saturate_i64(c.size_bytes),
    }
}

/// The sum of the rows' sizes.
pub open spec fn rows_size(cands: Seq<PruneCandidate>) -> int
    decreases cands.len(),
{
    if cands.len() == 0 {
        0
    } else {
        rows_size(cands.drop_last()) + saturate_i64(cands.last().size_bytes)
    }
}

proof fn lemma_rows_size_nonneg(cands: Seq<PruneCandidate>)
    ensures
        0 <= rows_size(cands),
    decreases cands.len(),
{
    if cands.len() > 0 {
        lemma_rows_size_nonneg(cands.drop_last());
    }
}

proof fn lemma_rows_size_append(a: Seq<PruneCandidate>, b: Seq<PruneCandidate>)
    ensures
        rows_size(a + b) == rows_size(a) + rows_size(b),
    decreases b.len(),
{
    if b.len() == 0 {
        assert(a + b =~= a);
    } else {
        lemma_rows_size_append(a, b.drop_last());
        assert((a + b).drop_last() =~= a + b.drop_last());
    }
}

proof fn lemma_pruned_prefix_bounded(cands: Seq<PruneCandidate>, pred: spec_fn(PruneCandidate) -> bool, k: int)
    requires
        0 <= k <= cands.len(),
    ensures
        rows_size(cands.take(k).filter(pred)) <= rows_size(cands.filter(pred)),
{
    assert(cands =~= cands.take(k) + cands.skip(k));
    Seq::filter_distributes_over_add(cands.take(k), cands.skip(k), pred);
    lemma_rows_size_append(cands.take(k).filter(pred), cands.skip(k).filter(pred));
    lemma_rows_size_nonneg(cands.skip(k).filter(pred));
}

/// The prune plan for the runs a request matched, given the cutoff time (in
/// Unix milliseconds) its age limit sets, if any: the inactive runs older
/// than the cutoff, in the order given, with their rows and total size.
pub fn build_prune_plan(candidates: &Vec<PruneCandidate>, cutoff_ms: Option<i64>) -> (r: PrunePlan)
    requires
        rows_size(pruned(candidates@, cutoff_ms)) <= i64::MAX,
    ensures
        r.run_ids@ == pruned(candidates@, cutoff_ms).map_values(|c: PruneCandidate| c.run_id),
        r.rows@ == pruned(candidates@, cutoff_ms).map_values(|c: PruneCandidate| prune_row_of(c)),
        r.total_size_bytes == rows_size(pruned(candidates@, cutoff_ms)),
{
    let ghost pred = |c: PruneCandidate| prunable(c, cutoff_ms);
    let ghost mut kept: Seq<PruneCandidate> = Seq::empty();
    let mut run_ids: Vec<RunId> = Vec::new();
    let mut rows: Vec<PruneRunEntry> = Vec::new();
    let mut total: i64 = 0;
    let mut i: usize = 0;
    proof {
        lemma_rows_size_nonneg(pruned(candidates@, cutoff_ms));
    }
    while i < candidates.len()
        invariant
            i <= candidates@.len(),
            pred == (|c: PruneCandidate| prunable(c, cutoff_ms)),
            kept == candidates@.take(i as int).filter(pred),
            rows_size(candidates@.filter(pred)) <= i64::MAX,
            run_ids@ == kept.map_values(|c: PruneCandidate| c.run_id),
            rows@ == kept.map_values(|c: PruneCandidate| prune_row_of(c)),
            total == rows_size(kept),
        decreases candidates.len() - i,
    {
        let c = &candidates[i];
        proof {
            reveal(Seq::filter);
            assert(candidates@.take(i + 1).drop_last() =~= candidates@.take(i as int));
        }
        let keep = !c.status.is_active() && match cutoff_ms {
            None => true,
            Some(cut) => match (if c.end_time_ms.is_some() { c.end_time_ms } else { c.start_time_ms }) {
                Some(t) => t < cut,
                None => false,
            },
        };
        if keep {
            proof {
                let next = kept.push(*c);
                assert(next == candidates@.take(i + 1).filter(pred));
                lemma_pruned_prefix_bounded(candidates@, pred, i + 1);
                assert(next.drop_last() =~= kept);
            }
            let size = to_i64(c.size_bytes);
            total = total + size;
            run_ids.push(c.run_id);
            rows.push(PruneRunEntry {
                run_id: c.run_id,
                dir_name: c.dir_name.clone(),
                workflow_name: c.workflow_name.clone(),
                size_bytes: size,
            });
            proof {
                kept = kept.push(*c);
                assert(run_ids@ =~= kept.map_values(|c: PruneCandidate| c.run_id));
                assert(rows@ =~= kept.map_values(|c: PruneCandidate| prune_row_of(c)));
            }
        }
        i = i + 1;
    }
    proof {
        assert(candidates@.take(candidates@.len() as int) =~= candidates@);
        lemma_rows_size_nonneg(kept);
    }
    PrunePlan { run_ids, rows, total_size_bytes: total as u64 }
}

} // verus!
