//! Whole runs of the scheduler, and what holds of every one of them.
//!
//! A run is the sequence of requests that the scheduler accepted, in the
//! order in which it handled them. Which worker sent which request, and in
//! what order finished rows came back, is left entirely open: the laws
//! below hold whatever the interleaving.

use vstd::prelude::*;
use crate::protocol::RowData;
use crate::scheduler::{
    lemma_filled_count_empty,
    lemma_filled_count_full,
    lemma_filled_count_update,
    SchedulerState,
};

verus! {

/// One request as the scheduler receives it.
pub struct Request {
    /// The worker that asks.
    pub from: int,
    /// The finished row that comes with the request; none on first contact.
    pub payload: Option<RowData>,
}

/// The state that handling `trace` from the start leads to, or `None` when
/// one of its requests is refused.
pub open spec fn run(width: nat, height: nat, trace: Seq<Request>) -> Option<SchedulerState>
    decreases trace.len(),
{
    if trace.len() == 0 {
        Some(SchedulerState::init(width, height))
    } else {
        match run(width, height, trace.drop_last()) {
            Some(s) => if s.rejects(trace.last().payload) is None {
                Some(s.step(trace.last().payload))
            } else {
                None
            },
            None => None,
        }
    }
}

/// The row index that request number `i` of the run is answered with.
pub open spec fn reply_at(width: nat, height: nat, trace: Seq<Request>, i: int) -> nat {
    run(width, height, trace.take(i))->0.next_row
}

/// Request number `i` of the trace brings row `r`.
pub open spec fn delivers(trace: Seq<Request>, i: int, r: int) -> bool {
    &&& 0 <= i < trace.len()
    &&& trace[i].payload is Some
    &&& trace[i].payload->0.row == r
}

/// Some request of the trace brings row `r`.
pub open spec fn delivered(trace: Seq<Request>, r: int) -> bool {
    exists|i: int| delivers(trace, i, r)
}

/// How many requests of the trace bring a row.
pub open spec fn deliveries(trace: Seq<Request>) -> nat
    decreases trace.len(),
{
    if trace.len() == 0 {
        0
    } else {
        deliveries(trace.drop_last()) + if trace.last().payload is Some { 1nat } else { 0nat }
    }
}

/// The smaller of two counts.
pub open spec fn least(a: nat, b: nat) -> nat {
    if a <= b {
        a
    } else {
        b
    }
}

/// An accepted request leaves the state well formed and the image size as
/// it was.
pub proof fn lemma_step_wf(s: SchedulerState, payload: Option<RowData>)
    requires
        s.wf(),
        s.rejects(payload) is None,
    ensures
        s.step(payload).wf(),
        s.step(payload).width == s.width,
        s.step(payload).height == s.height,
{
}

/// Every prefix of a run is a run.
pub proof fn lemma_run_prefix(width: nat, height: nat, trace: Seq<Request>, i: int)
    requires
        run(width, height, trace) is Some,
        0 <= i <= trace.len(),
    ensures
        run(width, height, trace.take(i)) is Some,
    decreases trace.len(),
{
    if i == trace.len() {
        assert(trace.take(i) =~= trace);
    } else {
        assert(trace.drop_last().take(i) =~= trace.take(i));
        lemma_run_prefix(width, height, trace.drop_last(), i);
    }
}

/// A run ends in a well-formed state for the same image, and its cursor has
/// moved once per request until it reached the height.
pub proof fn lemma_run_wf(width: nat, height: nat, trace: Seq<Request>)
    requires
        run(width, height, trace) is Some,
    ensures
        run(width, height, trace)->0.wf(),
        run(width, height, trace)->0.width == width,
        run(width, height, trace)->0.height == height,
        run(width, height, trace)->0.next_row == least(trace.len(), height),
    decreases trace.len(),
{
    if trace.len() > 0 {
        lemma_run_wf(width, height, trace.drop_last());
        lemma_step_wf(run(width, height, trace.drop_last())->0, trace.last().payload);
    }
}

/// Monotonic cursor. In every run, request number `i` is answered with row
/// `i` while rows are left and with the height afterwards. So the answers
/// never decrease, each row index is handed out exactly once, and after the
/// last row only the terminate value follows.
pub proof fn lemma_monotonic_cursor(width: nat, height: nat, trace: Seq<Request>)
    requires
        run(width, height, trace) is Some,
    ensures
        forall|i: int|
            0 <= i < trace.len() ==> #[trigger] reply_at(width, height, trace, i) == least(
                i as nat,
                height,
            ),
        forall|i: int, j: int|
            0 <= i <= j < trace.len() ==> #[trigger] reply_at(width, height, trace, i)
                <= #[trigger] reply_at(width, height, trace, j),
        forall|r: int|
            0 <= r < height && r < trace.len() ==> #[trigger] reply_at(width, height, trace, r)
                == r,
        forall|i: int, j: int|
            0 <= i < trace.len() && 0 <= j < trace.len() && #[trigger] reply_at(
                width,
                height,
                trace,
                i,
            ) == #[trigger] reply_at(width, height, trace, j) && reply_at(width, height, trace, i)
                < height ==> i == j,
        forall|i: int|
            height <= i < trace.len() ==> #[trigger] reply_at(width, height, trace, i) == height,
{
    assert forall|i: int| 0 <= i < trace.len() implies #[trigger] reply_at(
        width,
        height,
        trace,
        i,
    ) == least(i as nat, height) by {
        lemma_run_prefix(width, height, trace, i);
        lemma_run_wf(width, height, trace.take(i));
    }
}

/// What a run's grid holds. Every row that a request brought is in the grid
/// as it was brought, and was brought after it had been handed out; every
/// row in the grid was brought by some request; and no two requests brought
/// the same row.
pub proof fn lemma_run_rows(width: nat, height: nat, trace: Seq<Request>)
    requires
        run(width, height, trace) is Some,
    ensures
        forall|i: int, r: int| #[trigger]
            delivers(trace, i, r) ==> r < height && r < i && run(width, height, trace)->0.rows[r]
                == Some(trace[i].payload->0.data),
        forall|r: int|
            0 <= r < height && (#[trigger] run(width, height, trace)->0.rows[r]) is Some
                ==> delivered(trace, r),
        forall|i: int, j: int, r: int|
            delivers(trace, i, r) && delivers(trace, j, r) ==> i == j,
    decreases trace.len(),
{
    if trace.len() > 0 {
        let front = trace.drop_last();
        let last = trace.len() - 1;
        let before = run(width, height, front)->0;
        let after = run(width, height, trace)->0;
        lemma_run_rows(width, height, front);
        lemma_run_wf(width, height, front);
        assert forall|i: int, r: int| delivers(trace, i, r) && i < last implies delivers(
            front,
            i,
            r,
        ) by {}
        assert forall|i: int, r: int| #[trigger] delivers(trace, i, r) implies r < height && r < i
            && after.rows[r] == Some(trace[i].payload->0.data) by {
            if i < last {
                assert(delivers(front, i, r));
            }
        }
        assert forall|r: int| 0 <= r < height && (#[trigger] after.rows[r]) is Some implies delivered(
            trace,
            r,
        ) by {
            if delivers(trace, last, r) {
            } else {
                assert(before.rows[r] is Some);
                assert(delivered(front, r));
                let i = choose|i: int| delivers(front, i, r);
                assert(delivers(trace, i, r));
            }
        }
        assert forall|i: int, j: int, r: int|
            delivers(trace, i, r) && delivers(trace, j, r) implies i == j by {
            if i < last {
                assert(delivers(front, i, r));
            }
            if j < last {
                assert(delivers(front, j, r));
            }
        }
    }
}

/// Row coverage. When a run has completed, every row of the image was
/// brought by exactly one request, after it had been handed out, and the
/// grid holds it as that request brought it: no gaps and no duplicates.
pub proof fn lemma_row_coverage(width: nat, height: nat, trace: Seq<Request>)
    requires
        run(width, height, trace) is Some,
        run(width, height, trace)->0.complete(),
    ensures
        forall|r: int| 0 <= r < height ==> #[trigger] delivered(trace, r),
        forall|i: int, j: int, r: int|
            delivers(trace, i, r) && delivers(trace, j, r) ==> i == j,
        forall|i: int, r: int| #[trigger]
            delivers(trace, i, r) ==> r < height && r < i && run(width, height, trace)->0.rows[r]
                == Some(trace[i].payload->0.data),
        forall|r: int|
            0 <= r < height ==> #[trigger] reply_at(width, height, trace, r) == r,
{
    let s = run(width, height, trace)->0;
    lemma_run_wf(width, height, trace);
    lemma_run_rows(width, height, trace);
    lemma_filled_count_full(s.rows);
    assert forall|r: int| 0 <= r < height implies #[trigger] delivered(trace, r) by {
        assert(s.rows[r] is Some);
    }
    lemma_monotonic_cursor(width, height, trace);
    assert forall|r: int| 0 <= r < height implies #[trigger] reply_at(width, height, trace, r)
        == r by {
        assert(delivered(trace, r));
        let i = choose|i: int| delivers(trace, i, r);
        assert(delivers(trace, i, r));
    }
}

/// The completed-row counter counts the requests that brought a row, each
/// once.
pub proof fn lemma_rows_done_counts_deliveries(width: nat, height: nat, trace: Seq<Request>)
    requires
        run(width, height, trace) is Some,
    ensures
        run(width, height, trace)->0.rows_done() == deliveries(trace),
    decreases trace.len(),
{
    if trace.len() == 0 {
        lemma_filled_count_empty(height);
    } else {
        let before = run(width, height, trace.drop_last())->0;
        lemma_rows_done_counts_deliveries(width, height, trace.drop_last());
        lemma_run_wf(width, height, trace.drop_last());
        match trace.last().payload {
            Some(p) => {
                lemma_filled_count_update(before.rows, p.row as int, p.data);
            },
            None => {},
        }
    }
}

/// Completion is final: once every row has been received, any further row
/// is refused, so the counter reaches the height once and stays there.
pub proof fn lemma_complete_is_final(s: SchedulerState, p: RowData)
    requires
        s.wf(),
        s.complete(),
    ensures
        s.rejects(Some(p)) is Some,
{
    lemma_filled_count_full(s.rows);
    if p.row < s.next_row {
        assert(s.rows[p.row as int] is Some);
    }
}

/// Termination under surplus workers. Once every row has been handed out, a
/// request without a row is still accepted, is answered with the height,
/// and changes nothing: neither the cursor nor the grid.
pub proof fn lemma_exhausted_cursor_stays(s: SchedulerState)
    requires
        s.wf(),
        s.next_row == s.height,
    ensures
        s.rejects(None) is None,
        s.step(None) == s,
{
}

/// Termination under surplus workers, over a whole run. A request without a
/// row that arrives after the rows have all been handed out is answered with
/// the height, and the run ends in the same state without it: completion
/// rests on the rows of the workers that were given some, whoever they were.
pub proof fn lemma_surplus_request_is_idle(width: nat, height: nat, trace: Seq<Request>, i: int)
    requires
        run(width, height, trace) is Some,
        height <= i < trace.len(),
        trace[i].payload is None,
    ensures
        reply_at(width, height, trace, i) == height,
        run(width, height, trace.remove(i)) == run(width, height, trace),
    decreases trace.len(),
{
    lemma_monotonic_cursor(width, height, trace);
    let front = trace.drop_last();
    if i == trace.len() - 1 {
        assert(trace.remove(i) =~= front);
        lemma_run_wf(width, height, front);
        lemma_exhausted_cursor_stays(run(width, height, front)->0);
    } else {
        lemma_surplus_request_is_idle(width, height, front, i);
        assert(trace.remove(i).drop_last() =~= front.remove(i));
        assert(trace.remove(i).last() == trace.last());
    }
}

/// The worker plays no part: a run ends in the same state whoever sent its
/// requests.
pub proof fn lemma_senders_do_not_matter(
    width: nat,
    height: nat,
    trace: Seq<Request>,
    other: Seq<Request>,
)
    requires
        trace.len() == other.len(),
        forall|i: int| 0 <= i < trace.len() ==> trace[i].payload == other[i].payload,
    ensures
        run(width, height, trace) == run(width, height, other),
    decreases trace.len(),
{
    if trace.len() > 0 {
        lemma_senders_do_not_matter(width, height, trace.drop_last(), other.drop_last());
    }
}

/// The grid does not depend on the order of arrival. When every row that
/// was brought is what `shades` gives for its index, a completed run's grid
/// is `shades` row by row, in whatever order and by whomever the rows were
/// brought.
pub proof fn lemma_grid_is_order_independent(
    width: nat,
    height: nat,
    trace: Seq<Request>,
    shades: spec_fn(int) -> Seq<u8>,
)
    requires
        run(width, height, trace) is Some,
        run(width, height, trace)->0.complete(),
        forall|i: int|
            0 <= i < trace.len() && (#[trigger] trace[i]).payload is Some
                ==> trace[i].payload->0.data == shades(trace[i].payload->0.row as int),
    ensures
        run(width, height, trace)->0.rows == Seq::new(height, |r: int| Some(shades(r))),
{
    let s = run(width, height, trace)->0;
    lemma_run_wf(width, height, trace);
    lemma_row_coverage(width, height, trace);
    assert forall|r: int| 0 <= r < height implies s.rows[r] == Some(shades(r)) by {
        assert(delivered(trace, r));
        let i = choose|i: int| delivers(trace, i, r);
        assert(delivers(trace, i, r));
    }
    assert(s.rows =~= Seq::new(height, |r: int| Some(shades(r))));
}

} // verus!
