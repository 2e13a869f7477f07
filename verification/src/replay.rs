//! What folding an event stream yields does not depend on how the fold was
//! carried out: the effect of each event is pinned down by its contract, so
//! any two folds of the same stream agree on everything the projection
//! records.

use vstd::prelude::*;
use crate::ids::{seq_lt, StageId};
use crate::projection::{
    checkpoint_view, checkpoints_view, interview_views, is_fresh, lemma_seq_lt_total, stage_in, stage_index,
    Conclusion, PendingInterviewRecord, ProviderUsed, RunProjection, StageOutcome, StageProjection,
};
use crate::reducer::{
    applied, current_visit_or_one, folds, interview_of, interviews_after, interviews_sorted,
    lemma_interview_of_at, lemma_interview_of_none, lemma_sorted_unique, stage_base,
    stage_kept, stage_target, stage_updated, EventBody, RunEvent,
};

verus! {

/// A provider record by content, its mode by its characters.
pub open spec fn provider_view(p: Option<ProviderUsed>) -> Option<
    (Option<Seq<char>>, Option<String>, Option<String>, Option<String>),
> {
    match p {
        Some(pu) => Some(
            (
                match pu.mode {
                    Some(m) => Some(m@),
                    None => None,
                },
                pu.provider,
                pu.model,
                pu.command,
            ),
        ),
        None => None,
    }
}

/// Two stage entries agree: every field is equal, the provider's mode by
/// its characters.
pub open spec fn same_stage(a: StageProjection, b: StageProjection) -> bool {
    &&& a == StageProjection { provider_used: a.provider_used, ..b }
    &&& provider_view(a.provider_used) == provider_view(b.provider_used)
}

/// Two optional stage entries agree: both absent, or both present and in
/// agreement.
pub open spec fn same_stage_entry(a: Option<StageProjection>, b: Option<StageProjection>) -> bool {
    match (a, b) {
        (Some(x), Some(y)) => same_stage(x, y),
        (None, None) => true,
        _ => false,
    }
}

/// A conclusion by content, its failure text by its characters.
pub open spec fn conclusion_view(c: Option<Conclusion>) -> Option<
    (i64, StageOutcome, u64, Option<Seq<char>>, Option<String>),
> {
    match c {
        Some(x) => Some(
            (
                x.timestamp,
                x.status,
                x.duration_ms,
                match x.failure_reason {
                    Some(f) => Some(f@),
                    None => None,
                },
                x.final_git_commit_sha,
            ),
        ),
        None => None,
    }
}

/// Two projections agree on everything the reducer records: status and
/// times, control, patch and summaries, records, pending interviews in
/// order, and the entry of every stage.
pub open spec fn same_content(a: RunProjection, b: RunProjection) -> bool {
    &&& a.graph_source == b.graph_source
    &&& a.start == b.start
    &&& a.status == b.status
    &&& a.status_updated_at == b.status_updated_at
    &&& a.last_event_at == b.last_event_at
    &&& a.pending_control == b.pending_control
    &&& a.final_patch == b.final_patch
    &&& a.diff_summary == b.diff_summary
    &&& a.superseded_by == b.superseded_by
    &&& a.retro_prompt == b.retro_prompt
    &&& a.retro_response == b.retro_response
    &&& a.sandbox == b.sandbox
    &&& a.pull_request == b.pull_request
    &&& conclusion_view(a.conclusion) == conclusion_view(b.conclusion)
    &&& checkpoint_view(a.checkpoint) == checkpoint_view(b.checkpoint)
    &&& checkpoints_view(a.checkpoints@) == checkpoints_view(b.checkpoints@)
    &&& interview_views(a.pending_interviews@) == interview_views(b.pending_interviews@)
    &&& forall|n: Seq<char>, v: u32|
        #![trigger a.stage_of(n, v)]
        #![trigger b.stage_of(n, v)]
        same_stage_entry(a.stage_of(n, v), b.stage_of(n, v))
}

/// Two fresh projections agree.
proof fn lemma_fresh_agree(a: RunProjection, b: RunProjection)
    requires
        is_fresh(a),
        is_fresh(b),
    ensures
        same_content(a, b),
{
    assert(checkpoints_view(a.checkpoints@) =~= checkpoints_view(b.checkpoints@));
    assert(interview_views(a.pending_interviews@) =~= interview_views(b.pending_interviews@));
    assert forall|n: Seq<char>, v: u32| same_stage_entry(#[trigger] a.stage_of(n, v), b.stage_of(n, v)) by {
        assert(stage_index(a.stages@, n, v) == -1);
        assert(stage_index(b.stages@, n, v) == -1);
    }
}

/// A node with a stage entry has a highest visit among its entries.
proof fn lemma_visit_max(s: Seq<(StageId, StageProjection)>, n: Seq<char>, w: u32)
    requires
        stage_in(s, n, w) is Some,
    ensures
        exists|m: u32|
            stage_in(s, n, m) is Some && forall|v: u32| #[trigger] stage_in(s, n, v) is Some ==> v <= m,
    decreases s.len(),
{
    assert(s.len() > 0);
    let t = s.drop_last();
    let last = s.last();
    if exists|u: u32| stage_in(t, n, u) is Some {
        let u = choose|u: u32| stage_in(t, n, u) is Some;
        lemma_visit_max(t, n, u);
        let mt = choose|m: u32|
            stage_in(t, n, m) is Some && forall|v: u32| #[trigger] stage_in(t, n, v) is Some ==> v <= m;
        let m = if last.0.node_id@ == n && last.0.visit > mt {
            last.0.visit
        } else {
            mt
        };
        assert(stage_in(s, n, m) is Some);
        assert forall|v: u32| #[trigger] stage_in(s, n, v) is Some implies v <= m by {
            if !(last.0.node_id@ == n && last.0.visit == v) {
                assert(stage_in(t, n, v) is Some);
            }
        }
    } else {
        if !(last.0.node_id@ == n && last.0.visit == w) {
            assert(stage_in(t, n, w) is Some);
        }
        assert forall|v: u32| #[trigger] stage_in(s, n, v) is Some implies v <= w by {
            if !(last.0.node_id@ == n && last.0.visit == v) {
                assert(stage_in(t, n, v) is Some);
            }
        }
    }
}

/// The current visit of a node depends only on which of its visits have
/// entries.
proof fn lemma_current_visit_agree(
    s1: Seq<(StageId, StageProjection)>,
    s2: Seq<(StageId, StageProjection)>,
    n: Seq<char>,
)
    requires
        forall|v: u32| (#[trigger] stage_in(s1, n, v) is Some) == (stage_in(s2, n, v) is Some),
    ensures
        current_visit_or_one(s1, n) == current_visit_or_one(s2, n),
{
    if exists|v: u32| stage_in(s1, n, v) is Some {
        let w = choose|v: u32| stage_in(s1, n, v) is Some;
        assert(stage_in(s2, n, w) is Some);
        lemma_visit_max(s1, n, w);
        lemma_visit_max(s2, n, w);
        let m1 = current_visit_or_one(s1, n);
        let m2 = current_visit_or_one(s2, n);
        assert(stage_in(s1, n, m1) is Some);
        assert(stage_in(s2, n, m2) is Some);
        assert(stage_in(s2, n, m1) is Some);
        assert(stage_in(s1, n, m2) is Some);
        assert(m1 <= m2);
        assert(m2 <= m1);
    } else {
        assert forall|v: u32| !(#[trigger] stage_in(s2, n, v) is Some) by {
            assert(!(stage_in(s1, n, v) is Some));
        }
    }
}

/// An event updates agreeing stage entries into agreeing entries.
proof fn lemma_stage_updated_agree(
    s1: StageProjection,
    s2: StageProjection,
    e: RunEvent,
    n1: StageProjection,
    n2: StageProjection,
)
    requires
        same_stage(s1, s2),
        stage_updated(s1, e, n1),
        stage_updated(s2, e, n2),
    ensures
        same_stage(n1, n2),
{
}

/// Without the entry `id` at its head, a list of distinct ids holds every
/// other id as before.
proof fn lemma_interview_of_tail(l: Seq<PendingInterviewRecord>, id: Seq<char>)
    requires
        interviews_sorted(l),
        l.len() > 0,
        id != l[0].question_id@,
    ensures
        interview_of(l.drop_first(), id) == interview_of(l, id),
{
    let t = l.drop_first();
    lemma_sorted_unique(l);
    assert(interviews_sorted(t)) by {
        assert forall|i: int, j: int| 0 <= i < j < t.len() implies seq_lt(
            (#[trigger] t[i]).question_id@,
            (#[trigger] t[j]).question_id@,
        ) by {
            assert(t[i] == l[i + 1]);
            assert(t[j] == l[j + 1]);
        }
    }
    lemma_sorted_unique(t);
    if exists|k: int| 0 <= k < l.len() && (#[trigger] l[k]).question_id@ == id {
        let k = choose|k: int| 0 <= k < l.len() && (#[trigger] l[k]).question_id@ == id;
        assert(k > 0);
        assert(t[k - 1] == l[k]);
        lemma_interview_of_at(l, k);
        lemma_interview_of_at(t, k - 1);
    } else {
        lemma_interview_of_none(l, id);
        assert forall|i: int| 0 <= i < t.len() implies (#[trigger] t[i]).question_id@ != id by {
            assert(t[i] == l[i + 1]);
        }
        lemma_interview_of_none(t, id);
    }
}

/// Two interview lists in ascending id order that hold the same interview
/// under every id are the same list of contents.
proof fn lemma_interviews_determined(l1: Seq<PendingInterviewRecord>, l2: Seq<PendingInterviewRecord>)
    requires
        interviews_sorted(l1),
        interviews_sorted(l2),
        forall|id: Seq<char>| #[trigger] interview_of(l1, id) == interview_of(l2, id),
    ensures
        interview_views(l1) == interview_views(l2),
    decreases l1.len() + l2.len(),
{
    lemma_sorted_unique(l1);
    lemma_sorted_unique(l2);
    if l1.len() == 0 && l2.len() == 0 {
        assert(interview_views(l1) =~= interview_views(l2));
    } else if l1.len() == 0 {
        lemma_interview_of_at(l2, 0);
        lemma_interview_of_none(l1, l2[0].question_id@);
        assert(interview_of(l1, l2[0].question_id@) == interview_of(l2, l2[0].question_id@));
    } else if l2.len() == 0 {
        lemma_interview_of_at(l1, 0);
        lemma_interview_of_none(l2, l1[0].question_id@);
        assert(interview_of(l1, l1[0].question_id@) == interview_of(l2, l1[0].question_id@));
    } else {
        let a = l1[0].question_id@;
        let b = l2[0].question_id@;
        lemma_interview_of_at(l1, 0);
        lemma_interview_of_at(l2, 0);
        assert(interview_of(l1, a) == interview_of(l2, a));
        assert(interview_of(l1, b) == interview_of(l2, b));
        // `a` occurs in `l2` and `b` in `l1`.
        if !exists|k: int| 0 <= k < l2.len() && (#[trigger] l2[k]).question_id@ == a {
            lemma_interview_of_none(l2, a);
        }
        if !exists|k: int| 0 <= k < l1.len() && (#[trigger] l1[k]).question_id@ == b {
            lemma_interview_of_none(l1, b);
        }
        let k = choose|k: int| 0 <= k < l2.len() && (#[trigger] l2[k]).question_id@ == a;
        let m = choose|m: int| 0 <= m < l1.len() && (#[trigger] l1[m]).question_id@ == b;
        if a != b {
            assert(k != 0);
            assert(m != 0);
            assert(seq_lt(b, a));
            assert(seq_lt(a, b));
            lemma_seq_lt_total(a, b);
        }
        assert(l1[0]@ == l2[0]@);
        let t1 = l1.drop_first();
        let t2 = l2.drop_first();
        assert(interviews_sorted(t1)) by {
            assert forall|i: int, j: int| 0 <= i < j < t1.len() implies seq_lt(
                (#[trigger] t1[i]).question_id@,
                (#[trigger] t1[j]).question_id@,
            ) by {
                assert(t1[i] == l1[i + 1]);
                assert(t1[j] == l1[j + 1]);
            }
        }
        assert(interviews_sorted(t2)) by {
            assert forall|i: int, j: int| 0 <= i < j < t2.len() implies seq_lt(
                (#[trigger] t2[i]).question_id@,
                (#[trigger] t2[j]).question_id@,
            ) by {
                assert(t2[i] == l2[i + 1]);
                assert(t2[j] == l2[j + 1]);
            }
        }
        assert forall|id: Seq<char>| #[trigger] interview_of(t1, id) == interview_of(t2, id) by {
            if id == a {
                assert forall|i: int| 0 <= i < t1.len() implies (#[trigger] t1[i]).question_id@ != id by {
                    assert(t1[i] == l1[i + 1]);
                }
                assert forall|i: int| 0 <= i < t2.len() implies (#[trigger] t2[i]).question_id@ != id by {
                    assert(t2[i] == l2[i + 1]);
                }
                lemma_interview_of_none(t1, id);
                lemma_interview_of_none(t2, id);
            } else {
                lemma_interview_of_tail(l1, id);
                lemma_interview_of_tail(l2, id);
            }
        }
        lemma_interviews_determined(t1, t2);
        let v1 = interview_views(l1);
        let v2 = interview_views(l2);
        assert(interview_views(t1).len() == t1.len());
        assert(interview_views(t2).len() == t2.len());
        assert forall|i: int| 0 <= i < v1.len() implies v1[i] == v2[i] by {
            if i > 0 {
                assert(t1[i - 1] == l1[i]);
                assert(t2[i - 1] == l2[i]);
                assert(interview_views(t1)[i - 1] == interview_views(t2)[i - 1]);
            }
        }
        assert(v1 =~= v2);
    }
}

/// An event leaves agreeing pending interviews in agreement.
proof fn lemma_interviews_agree(
    a: Seq<PendingInterviewRecord>,
    b: Seq<PendingInterviewRecord>,
    e: RunEvent,
    x: Seq<PendingInterviewRecord>,
    y: Seq<PendingInterviewRecord>,
)
    requires
        interview_views(a) == interview_views(b),
        interviews_after(a, e, x),
        interviews_after(b, e, y),
    ensures
        interview_views(x) == interview_views(y),
{
    assert forall|id: Seq<char>| #[trigger] interview_of(a, id) == interview_of(b, id) by {}
    match e.body {
        EventBody::RunCompleted { .. } | EventBody::RunFailed { .. } => {
            assert(interview_views(x) =~= interview_views(y));
        },
        _ => {
            if interview_views(x) != interview_views(a) || interview_views(y) != interview_views(b) {
                assert forall|id: Seq<char>| #[trigger] interview_of(x, id) == interview_of(y, id) by {}
                lemma_interviews_determined(x, y);
            }
        },
    }
}

/// An event leaves agreeing stage entries in agreement.
proof fn lemma_stages_agree(a: RunProjection, b: RunProjection, e: RunEvent, x: RunProjection, y: RunProjection)
    requires
        forall|n: Seq<char>, v: u32|
            #![trigger a.stage_of(n, v)]
            #![trigger b.stage_of(n, v)]
            same_stage_entry(a.stage_of(n, v), b.stage_of(n, v)),
        applied(a, e, x),
        applied(b, e, y),
    ensures
        forall|n: Seq<char>, v: u32|
            #![trigger x.stage_of(n, v)]
            #![trigger y.stage_of(n, v)]
            same_stage_entry(x.stage_of(n, v), y.stage_of(n, v)),
{
    match e.node_id {
        Some(n) => {
            assert forall|v: u32| (#[trigger] stage_in(a.stages@, n@, v) is Some) == (stage_in(
                b.stages@,
                n@,
                v,
            ) is Some) by {
                assert(same_stage_entry(a.stage_of(n@, v), b.stage_of(n@, v)));
            }
            lemma_current_visit_agree(a.stages@, b.stages@, n@);
        },
        None => {},
    }
    assert(stage_target(a.stages@, e) == stage_target(b.stages@, e));
    assert forall|n: Seq<char>, v: u32| #![trigger x.stage_of(n, v)] #![trigger y.stage_of(n, v)]
        same_stage_entry(x.stage_of(n, v), y.stage_of(n, v)) by {
        assert(same_stage_entry(a.stage_of(n, v), b.stage_of(n, v)));
        match stage_target(a.stages@, e) {
            None => {
                if !(e.body is CheckpointCompleted) {
                    assert(x.stage_of(n, v) == a.stage_of(n, v));
                    assert(y.stage_of(n, v) == b.stage_of(n, v));
                } else {
                    assert(x.stage_of(n, v) == stage_kept(a, e, n, v));
                    assert(y.stage_of(n, v) == stage_kept(b, e, n, v));
                }
            },
            Some(k) => {
                if n == k.0 && v == k.1 {
                    let b1 = stage_base(a.stages@, k.0, k.1, e.seq);
                    let b2 = stage_base(b.stages@, k.0, k.1, e.seq);
                    assert(same_stage(b1, b2));
                    let st1 = x.stage_of(n, v)->0;
                    let st2 = y.stage_of(n, v)->0;
                    lemma_stage_updated_agree(b1, b2, e, st1, st2);
                } else {
                    assert(x.stage_of(n, v) == stage_kept(a, e, n, v));
                    assert(y.stage_of(n, v) == stage_kept(b, e, n, v));
                }
            },
        }
    }
}

/// One event takes projections that agree to projections that agree.
pub proof fn lemma_applied_agree(a: RunProjection, b: RunProjection, e: RunEvent, x: RunProjection, y: RunProjection)
    requires
        same_content(a, b),
        applied(a, e, x),
        applied(b, e, y),
    ensures
        same_content(x, y),
{
    lemma_interviews_agree(a.pending_interviews@, b.pending_interviews@, e, x.pending_interviews@, y.pending_interviews@);
    lemma_stages_agree(a, b, e, x, y);
}

proof fn lemma_prefix_agree(events: Seq<RunEvent>, c1: Seq<RunProjection>, c2: Seq<RunProjection>, k: int)
    requires
        folds(events, c1),
        folds(events, c2),
        0 <= k <= events.len(),
    ensures
        same_content(c1[k], c2[k]),
    decreases k,
{
    if k == 0 {
        lemma_fresh_agree(c1[0], c2[0]);
    } else {
        lemma_prefix_agree(events, c1, c2, k - 1);
        lemma_applied_agree(c1[k - 1], c2[k - 1], events[k - 1], c1[k], c2[k]);
    }
}

/// Folding a stream is determined by the stream: any two folds of the
/// same events, each event applied in turn from a fresh projection, end in
/// projections with the same contents. So the projection that
/// `apply_events` returns is the one that applying the same events one at
/// a time with `apply_event`, from `RunProjection::new()`, reaches.
pub proof fn law_stream_fold_is_stepwise(events: Seq<RunEvent>, c1: Seq<RunProjection>, c2: Seq<RunProjection>)
    requires
        folds(events, c1),
        folds(events, c2),
    ensures
        same_content(c1.last(), c2.last()),
{
    lemma_prefix_agree(events, c1, c2, events.len() as int);
}

} // verus!
