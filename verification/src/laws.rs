//! What holds of every run, proved from the supervisor's transitions.

use vstd::prelude::*;
use crate::command::{batch_items, RunRequestView, WorkItemView};
use crate::directive::{DirectiveView, WaitAction};
use crate::error::Error;
use crate::outcome::{ExitStatus, FailureView, ItemRecordView, ItemResultView, RunStateView};
use crate::tedana::{
    cancel_step, closing_record, finish_step, start_step, wake_step, SupervisorView,
};
use crate::transcript::{consistent, is_marker_line, TranscriptView};

verus! {

/// The number of processes the run has alive: one while an item is in
/// progress, none at rest.
pub open spec fn alive(s: SupervisorView) -> nat {
    if s.state is Running {
        1
    } else {
        0
    }
}

/// The number of processes a directive asks to start.
pub open spec fn launches(directive: Option<DirectiveView>) -> nat {
    match directive {
        Some(DirectiveView::Launch(_)) => 1,
        _ => 0,
    }
}

/// The record the run keeps of the item at position `i`.
pub open spec fn record_of(
    items: Seq<WorkItemView>,
    results: Seq<ItemResultView>,
    i: int,
) -> ItemRecordView {
    ItemRecordView {
        primary_key: items[i].primary_key,
        secondary_key: items[i].secondary_key,
        transcript: results[i].transcript(),
    }
}

/// The records of the first `count` items.
pub open spec fn records_of(
    items: Seq<WorkItemView>,
    results: Seq<ItemResultView>,
    count: nat,
) -> Seq<ItemRecordView> {
    Seq::new(count, |i: int| record_of(items, results, i))
}

/// The state and the directives after the results were reported one after
/// the other.
pub open spec fn run_items(s: SupervisorView, results: Seq<ItemResultView>) -> (
    SupervisorView,
    Seq<DirectiveView>,
)
    decreases results.len(),
{
    if results.len() == 0 {
        (s, Seq::empty())
    } else {
        let (before, directives) = run_items(s, results.drop_last());
        let (after, directive) = finish_step(before, results.last());
        (
            after,
            match directive {
                Some(directive) => directives.push(directive),
                None => directives,
            },
        )
    }
}

/// Every transition leaves the supervisor well formed.
pub proof fn lemma_steps_keep_well_formed(
    s: SupervisorView,
    request: RunRequestView,
    exited: bool,
    result: ItemResultView,
)
    requires
        s.wf(),
    ensures
        start_step(s, request).0.wf(),
        cancel_step(s).0.wf(),
        wake_step(s, exited).0.wf(),
        finish_step(s, result).0.wf(),
{
}

/// A request with an empty batch, made at rest, completes at once with an
/// empty overall transcript: the supervisor stays at rest and nothing is to
/// be launched.
pub proof fn lemma_empty_batch_completes(s: SupervisorView, request: RunRequestView)
    requires
        s.state is Idle,
        request.batch.len() == 0,
    ensures
        start_step(s, request) == (
            s,
            Ok::<DirectiveView, Error>(
                DirectiveView::Finish(RunStateView::Completed { records: Seq::empty() }),
            ),
        ),
{
}

/// While a run is active a start is refused with `AlreadyRunning`, whatever
/// the request; the state does not change and nothing is to be launched.
pub proof fn lemma_start_refused_while_running(s: SupervisorView, request: RunRequestView)
    requires
        s.state is Running,
    ensures
        start_step(s, request) == (s, Err::<DirectiveView, Error>(Error::AlreadyRunning)),
{
}

/// A start that launched an item makes every second start fail, until the
/// run has ended.
pub proof fn lemma_second_start_refused(
    s: SupervisorView,
    first: RunRequestView,
    second: RunRequestView,
)
    requires
        start_step(s, first).1 matches Ok(DirectiveView::Launch(_)),
    ensures
        start_step(start_step(s, first).0, second) == (
            start_step(s, first).0,
            Err::<DirectiveView, Error>(Error::AlreadyRunning),
        ),
{
}

/// At most one process is alive at any time. A launch is asked for only when
/// none is alive, and the end of an item accounts for the one that was.
pub proof fn lemma_one_process_at_a_time(
    s: SupervisorView,
    request: RunRequestView,
    exited: bool,
    result: ItemResultView,
)
    requires
        s.wf(),
    ensures
        alive(s) <= 1,
        alive(start_step(s, request).0) == alive(s) + launches(
            match start_step(s, request).1 {
                Ok(directive) => Some(directive),
                Err(_) => None,
            },
        ),
        alive(cancel_step(s).0) == alive(s),
        alive(wake_step(s, exited).0) == alive(s),
        alive(finish_step(s, result).0) == launches(finish_step(s, result).1),
        launches(finish_step(s, result).1) <= alive(s),
{
}

/// At rest a cancellation is refused with `NotRunning`, and nothing changes.
pub proof fn lemma_cancel_refused_at_rest(s: SupervisorView)
    requires
        s.state is Idle,
    ensures
        cancel_step(s) == (s, Err::<(), Error>(Error::NotRunning)),
{
}

/// When a run ends, the supervisor is at rest again, so that the next start
/// is accepted.
pub proof fn lemma_finish_returns_to_rest(
    s: SupervisorView,
    result: ItemResultView,
    request: RunRequestView,
)
    requires
        s.wf(),
        finish_step(s, result).1 matches Some(DirectiveView::Finish(_)),
    ensures
        finish_step(s, result).0 == SupervisorView::idle(),
        finish_step(s, result).1->Some_0->Finish_0.is_outcome(),
        start_step(finish_step(s, result).0, request).1 != Err::<DirectiveView, Error>(
            Error::AlreadyRunning,
        ),
{
}

/// While the items succeed and more remain, the run goes from one item to the
/// next: after `count` results it is at item `count`, holds their records and
/// has asked for the launch of each of the items after the first.
proof fn lemma_run_of_successes(s: SupervisorView, results: Seq<ItemResultView>, count: nat)
    requires
        s.wf(),
        s.state == (RunStateView::Running { current: 0, records: Seq::empty() }),
        !s.cancel_requested,
        count <= results.len(),
        count < s.items.len(),
        forall|i: int| 0 <= i < count ==> (#[trigger] results[i]).succeeded(),
    ensures
        run_items(s, results.take(count as int)).0 == (SupervisorView {
            state: RunStateView::Running {
                current: count,
                records: records_of(s.items, results, count),
            },
            ..s
        }),
        run_items(s, results.take(count as int)).1 == Seq::new(
            count,
            |i: int| DirectiveView::Launch(s.plan((i + 1) as nat)),
        ),
    decreases count,
{
    let taken = results.take(count as int);
    if count == 0 {
        assert(records_of(s.items, results, 0) =~= Seq::<ItemRecordView>::empty());
    } else {
        let fewer = (count - 1) as nat;
        lemma_run_of_successes(s, results, fewer);
        assert(taken.drop_last() =~= results.take(fewer as int));
        assert(records_of(s.items, results, fewer).push(record_of(s.items, results, fewer as int))
            =~= records_of(s.items, results, count));
    }
}

/// Fail-fast: where item `k` (counting from one) is the first to fail, the
/// run launches the items up to `k` and no other, and ends as failed with
/// the records of the items `1..k`. The supervisor is then at rest.
pub proof fn lemma_first_failure_ends_run(
    s: SupervisorView,
    request: RunRequestView,
    results: Seq<ItemResultView>,
    k: nat,
)
    requires
        s.state is Idle,
        start_step(s, request).1 matches Ok(DirectiveView::Launch(_)),
        1 <= k <= results.len(),
        k <= batch_items(request.template, request.batch).len(),
        forall|i: int| 0 <= i < k - 1 ==> (#[trigger] results[i]).succeeded(),
        results[k - 1].failure((k - 1) as nat) is Some,
    ensures
        ({
            let started = start_step(s, request).0;
            let (ended, directives) = run_items(started, results.take(k as int));
            &&& start_step(s, request).1 == Ok::<DirectiveView, Error>(
                DirectiveView::Launch(started.plan(0)),
            )
            &&& directives.len() == k
            &&& forall|i: int|
                0 <= i < k - 1 ==> #[trigger] directives[i] == DirectiveView::Launch(
                    started.plan((i + 1) as nat),
                )
            &&& directives[k - 1] == DirectiveView::Finish(
                RunStateView::Failed {
                    reason: results[k - 1].failure((k - 1) as nat)->Some_0,
                    records: records_of(started.items, results, k),
                },
            )
            &&& ended == SupervisorView::idle()
        }),
{
    let started = start_step(s, request).0;
    let fewer = (k - 1) as nat;
    lemma_run_of_successes(started, results, fewer);
    let taken = results.take(k as int);
    assert(taken.drop_last() =~= results.take(fewer as int));
    assert(records_of(started.items, results, fewer).push(
        record_of(started.items, results, fewer as int),
    ) =~= records_of(started.items, results, k));
}

/// Where every item succeeds, the run launches each item in turn and ends as
/// completed with the records of all of them. The supervisor is then at rest.
pub proof fn lemma_all_succeed_completes(
    s: SupervisorView,
    request: RunRequestView,
    results: Seq<ItemResultView>,
)
    requires
        s.state is Idle,
        start_step(s, request).1 matches Ok(DirectiveView::Launch(_)),
        results.len() == batch_items(request.template, request.batch).len(),
        forall|i: int| 0 <= i < results.len() ==> (#[trigger] results[i]).succeeded(),
    ensures
        ({
            let started = start_step(s, request).0;
            let (ended, directives) = run_items(started, results);
            &&& directives.len() == results.len()
            &&& forall|i: int|
                0 <= i < results.len() - 1 ==> #[trigger] directives[i] == DirectiveView::Launch(
                    started.plan((i + 1) as nat),
                )
            &&& directives.last() == DirectiveView::Finish(
                RunStateView::Completed {
                    records: records_of(started.items, results, results.len()),
                },
            )
            &&& ended == SupervisorView::idle()
        }),
{
    let started = start_step(s, request).0;
    let count = results.len();
    let fewer = (count - 1) as nat;
    lemma_run_of_successes(started, results, fewer);
    assert(records_of(started.items, results, fewer).push(
        record_of(started.items, results, fewer as int),
    ) =~= records_of(started.items, results, count));
}

/// Once a run has ended, further results change nothing and ask for nothing.
pub proof fn lemma_results_ignored_at_rest(s: SupervisorView, result: ItemResultView)
    requires
        s.state is Idle,
    ensures
        finish_step(s, result) == (s, None::<DirectiveView>),
{
}

/// The marker on the diagnostic stream overrides a successful exit: an item
/// whose process exits with status zero, but whose transcript holds a
/// diagnostic line with the marker, fails the run as a `ProcessFailure`.
pub proof fn lemma_marker_overrides_exit_status(
    s: SupervisorView,
    transcript: TranscriptView,
    at: int,
)
    requires
        s.wf(),
        s.state is Running,
        !s.cancel_requested,
        consistent(transcript),
        0 <= at < transcript.lines.len(),
        is_marker_line(transcript.lines[at]),
    ensures
        ({
            let result = ItemResultView::Exited {
                status: ExitStatus { code: Some(0i32) },
                transcript,
            };
            &&& finish_step(s, result).1 matches Some(
                DirectiveView::Finish(RunStateView::Failed { reason, .. }),
            )
            &&& reason == (FailureView::DiagnosticMarker { item: s.state->Running_current })
            &&& reason.error() == Error::ProcessFailure
        }),
{
}

/// Cancelling a run in progress: the cancellation is accepted; at the next
/// wake the process, where it still runs, is to be terminated; at every wake
/// after that it is only waited on or collected, so that it is terminated
/// exactly once; and when the item ends, the run ends as cancelled with no
/// further launch.
pub proof fn lemma_cancel_terminates_once(s: SupervisorView, result: ItemResultView)
    requires
        s.wf(),
        s.state is Running,
        !s.cancel_requested,
        !(result is Skipped),
    ensures
        ({
            let (noted, accepted) = cancel_step(s);
            let (terminating, first) = wake_step(noted, false);
            &&& accepted == Ok::<(), Error>(())
            &&& first == Some(WaitAction::Terminate)
            &&& wake_step(terminating, false) == (terminating, Some(WaitAction::Wait))
            &&& wake_step(terminating, true) == (terminating, Some(WaitAction::Collect))
            &&& finish_step(terminating, result).0 == SupervisorView::idle()
            &&& finish_step(terminating, result).1 matches Some(
                DirectiveView::Finish(RunStateView::Cancelled { records }),
            )
            &&& records == s.state->Running_records.push(closing_record(s, result))
        }),
{
}

/// A cancellation that is seen before the process of the current item was
/// started keeps it from starting: the launch is no longer allowed, and the
/// run ends as cancelled with the records of the items before.
pub proof fn lemma_cancel_before_launch(s: SupervisorView)
    requires
        s.wf(),
        s.state is Running,
        s.cancel_requested,
    ensures
        finish_step(s, ItemResultView::Skipped) == (
            SupervisorView::idle(),
            Some(
                DirectiveView::Finish(
                    RunStateView::Cancelled { records: s.state->Running_records },
                ),
            ),
        ),
{
}

/// After a cancellation was requested, no further item is launched, whether
/// or not the process was still running when the request was seen.
pub proof fn lemma_no_launch_after_cancel(s: SupervisorView, result: ItemResultView)
    requires
        s.wf(),
        s.state is Running,
        s.cancel_requested,
    ensures
        finish_step(s, result).0 == SupervisorView::idle(),
        finish_step(s, result).1 matches Some(
            DirectiveView::Finish(RunStateView::Cancelled { .. }),
        ),
{
}

} // verus!
