//! The execution supervisor: at most one run is active at a time, the items
//! of its batch are processed one after the other, and the first failure or a
//! cancellation ends the run.
//!
//! The supervisor decides; its caller acts. Each operation takes what the
//! caller observed and returns what to do next: launch the process of an
//! item, keep waiting, terminate the process, or hand the outcome back.

use vstd::prelude::*;
use vstd::string::*;
use crate::command::{
    batch_items, build_items, item_views, RunRequest, RunRequestView, WorkItem, WorkItemView,
};
use crate::directive::{Directive, DirectiveView, LaunchPlan, LaunchPlanView, WaitAction};
use crate::environment::{
    activation_of, environment_root, resolve, tool_executable, Environment,
};
use crate::error::Error;
use crate::outcome::{
    record_views, ExitStatus, Failure, ItemRecord, ItemRecordView, ItemResult, ItemResultView,
    RunState, RunStateView,
};
use crate::transcript::Transcript;

verus! {

/// The longest time, in milliseconds, that the loop waiting on a process
/// sleeps between two probes for its exit.
pub const POLL_INTERVAL_MILLIS: u64 = 100;

/// The supervisor as the contracts see it.
pub struct SupervisorView {
    pub state: RunStateView,
    /// The items of the active run.
    pub items: Seq<WorkItemView>,
    /// The root of the environment of the active run.
    pub root: Seq<char>,
    pub cancel_requested: bool,
    pub terminate_requested: bool,
}

impl SupervisorView {
    /// The supervisor at rest.
    pub open spec fn idle() -> SupervisorView {
        SupervisorView {
            state: RunStateView::Idle,
            items: Seq::empty(),
            root: Seq::empty(),
            cancel_requested: false,
            terminate_requested: false,
        }
    }

    /// A run is active.
    pub open spec fn is_running(self) -> bool {
        self.state is Running
    }

    /// At rest the supervisor holds nothing. During a run the records are
    /// those of the items before the current one, in batch order, and a
    /// termination was requested only after a cancellation.
    pub open spec fn wf(self) -> bool {
        match self.state {
            RunStateView::Idle => self == Self::idle(),
            RunStateView::Running { current, records } => {
                &&& current < self.items.len()
                &&& records.len() == current
                &&& forall|i: int|
                    0 <= i < records.len() ==> {
                        &&& (#[trigger] records[i]).primary_key == self.items[i].primary_key
                        &&& records[i].secondary_key == self.items[i].secondary_key
                    }
                &&& self.terminate_requested ==> self.cancel_requested
            },
            _ => false,
        }
    }

    /// The plan for launching the item at position `item`.
    pub open spec fn plan(self, item: nat) -> LaunchPlanView {
        LaunchPlanView {
            item,
            executable: tool_executable(self.root),
            arguments: self.items[item as int].arguments,
            activation: activation_of(self.root),
        }
    }
}

/// The root of the environment a request asks for: the one it names, or else
/// the one derived from its interpreter path.
pub open spec fn requested_root(request: RunRequestView) -> Option<Seq<char>> {
    match request.environment_root {
        Some(root) => Some(root),
        None => environment_root(request.interpreter_path),
    }
}

/// Starting a run. While a run is active the request is refused. A request
/// with an empty batch completes at once. Otherwise the environment is
/// resolved, the run becomes active and its first item is to be launched.
pub open spec fn start_step(s: SupervisorView, request: RunRequestView) -> (
    SupervisorView,
    Result<DirectiveView, Error>,
) {
    let items = batch_items(request.template, request.batch);
    if !(s.state is Idle) {
        (s, Err(Error::AlreadyRunning))
    } else if items.len() == 0 {
        (s, Ok(DirectiveView::Finish(RunStateView::Completed { records: Seq::empty() })))
    } else {
        match requested_root(request) {
            None => (s, Err(Error::InvalidEnvironmentLayout)),
            Some(root) => {
                let running = SupervisorView {
                    state: RunStateView::Running { current: 0, records: Seq::empty() },
                    items,
                    root,
                    cancel_requested: false,
                    terminate_requested: false,
                };
                (running, Ok(DirectiveView::Launch(running.plan(0))))
            },
        }
    }
}

/// Requesting a cancellation. It is refused while no run is active;
/// otherwise it is noted, and nothing else changes.
pub open spec fn cancel_step(s: SupervisorView) -> (SupervisorView, Result<(), Error>) {
    if s.state is Running {
        (SupervisorView { cancel_requested: true, ..s }, Ok(()))
    } else {
        (s, Err(Error::NotRunning))
    }
}

/// One wake of the loop that waits on the process of the current item.
/// A process that has exited is collected. A process that still runs is
/// terminated once after a cancellation was requested, and waited on
/// otherwise. Without a run there is nothing to do.
pub open spec fn wake_step(s: SupervisorView, exited: bool) -> (
    SupervisorView,
    Option<WaitAction>,
) {
    if !(s.state is Running) {
        (s, None)
    } else if exited {
        (s, Some(WaitAction::Collect))
    } else if s.cancel_requested && !s.terminate_requested {
        (SupervisorView { terminate_requested: true, ..s }, Some(WaitAction::Terminate))
    } else {
        (s, Some(WaitAction::Wait))
    }
}

/// The record of the current item, from what its process wrote.
pub open spec fn closing_record(s: SupervisorView, result: ItemResultView) -> ItemRecordView {
    let current = s.state->Running_current as int;
    ItemRecordView {
        primary_key: s.items[current].primary_key,
        secondary_key: s.items[current].secondary_key,
        transcript: result.transcript(),
    }
}

/// The end of the current item. Its record joins those before it. After a
/// cancellation the run ends as cancelled; on a failure it ends as failed;
/// after the last item it ends as completed; in each case the supervisor is
/// at rest again. Otherwise the next item becomes current and is to be
/// launched. An item that was skipped leaves no record: after a cancellation
/// the run ends as cancelled, otherwise the item is to be launched again.
/// Without a run there is nothing to do.
pub open spec fn finish_step(s: SupervisorView, result: ItemResultView) -> (
    SupervisorView,
    Option<DirectiveView>,
) {
    match s.state {
        RunStateView::Running { current, records } => {
            let closed = records.push(closing_record(s, result));
            if result is Skipped {
                if s.cancel_requested {
                    (
                        SupervisorView::idle(),
                        Some(DirectiveView::Finish(RunStateView::Cancelled { records })),
                    )
                } else {
                    (s, Some(DirectiveView::Launch(s.plan(current))))
                }
            } else if s.cancel_requested {
                (
                    SupervisorView::idle(),
                    Some(DirectiveView::Finish(RunStateView::Cancelled { records: closed })),
                )
            } else if result.failure(current) is Some {
                (
                    SupervisorView::idle(),
                    Some(
                        DirectiveView::Finish(
                            RunStateView::Failed {
                                reason: result.failure(current)->Some_0,
                                records: closed,
                            },
                        ),
                    ),
                )
            } else if current + 1 < s.items.len() {
                let next = SupervisorView {
                    state: RunStateView::Running { current: current + 1, records: closed },
                    ..s
                };
                (next, Some(DirectiveView::Launch(next.plan(current + 1))))
            } else {
                (
                    SupervisorView::idle(),
                    Some(DirectiveView::Finish(RunStateView::Completed { records: closed })),
                )
            }
        },
        _ => (s, None),
    }
}

/// The supervisor of runs. There is one per process; whoever holds it
/// exclusively may start, cancel and advance the run.
#[derive(Debug)]
pub struct Supervisor {
    state: RunState,
    items: Vec<WorkItem>,
    root: String,
    cancel_requested: bool,
    terminate_requested: bool,
}

impl View for Supervisor {
    type V = SupervisorView;

    closed spec fn view(&self) -> SupervisorView {
        SupervisorView {
            state: self.state@,
            items: item_views(self.items@),
            root: self.root@,
            cancel_requested: self.cancel_requested,
            terminate_requested: self.terminate_requested,
        }
    }
}

/// What starting a run returned, as the contracts see it.
pub open spec fn started_view(started: Result<Directive, Error>) -> Result<DirectiveView, Error> {
    match started {
        Ok(directive) => Ok(directive@),
        Err(error) => Err(error),
    }
}

/// What the end of an item returned, as the contracts see it.
pub open spec fn directive_view(directive: Option<Directive>) -> Option<DirectiveView> {
    match directive {
        Some(directive) => Some(directive@),
        None => None,
    }
}

impl Supervisor {
    #[verifier::type_invariant]
    spec fn inv(&self) -> bool {
        self@.wf()
    }

    /// A supervisor at rest.
    pub fn new() -> (supervisor: Supervisor)
        ensures
            supervisor@ == SupervisorView::idle(),
    {
        let items: Vec<WorkItem> = Vec::new();
        assert(item_views(items@) =~= Seq::<WorkItemView>::empty());
        Supervisor {
            state: RunState::Idle,
            items,
            root: String::new(),
            cancel_requested: false,
            terminate_requested: false,
        }
    }

    /// Whether the process of the current item may be started: a run is
    /// active and no cancellation was requested.
    pub fn launch_allowed(&self) -> (allowed: bool)
        ensures
            allowed == (self@.is_running() && !self@.cancel_requested),
    {
        match &self.state {
            RunState::Running { .. } => !self.cancel_requested,
            _ => false,
        }
    }

    /// Whether a run is active.
    pub fn is_running(&self) -> (running: bool)
        ensures
            running == self@.is_running(),
            self@.wf(),
    {
        proof {
            use_type_invariant(self);
        }
        match &self.state {
            RunState::Running { .. } => true,
            _ => false,
        }
    }

    /// The plan for launching the item at position `item`.
    fn plan_for(items: &Vec<WorkItem>, root: &str, item: usize) -> (plan: LaunchPlan)
        requires
            item < items.len(),
        ensures
            plan@ == (LaunchPlanView {
                item: item as nat,
                executable: tool_executable(root@),
                arguments: item_views(items@)[item as int].arguments,
                activation: activation_of(root@),
            }),
    {
        let environment = Environment::at(root);
        LaunchPlan {
            item,
            executable: environment.tool_path,
            arguments: items[item].arguments.clone(),
            activation: environment.activation,
        }
    }
}

/// Starts a run, if none is active.
///
/// Returns `AlreadyRunning`, and changes nothing, while a run is active. For
/// an empty batch the run completes at once with an empty overall transcript
/// and nothing is to be launched. Otherwise the environment is resolved
/// (`InvalidEnvironmentLayout` where that fails), the run becomes active and
/// the first item is to be launched.
pub fn run_tedana(supervisor: &mut Supervisor, request: &RunRequest) -> (started: Result<
    Directive,
    Error,
>)
    ensures
        (final(supervisor)@, started_view(started)) == start_step(old(supervisor)@, request@),
        final(supervisor)@.wf(),
{
    if supervisor.is_running() {
        return Err(Error::AlreadyRunning);
    }
    let items = build_items(request.template.as_str(), &request.batch);
    if items.len() == 0 {
        let records: Vec<ItemRecord> = Vec::new();
        assert(record_views(records@) =~= Seq::<ItemRecordView>::empty());
        return Ok(Directive::Finish(RunState::Completed { records }));
    }
    let root = match &request.environment_root {
        Some(root) => root.clone(),
        None => match resolve(request.interpreter_path.as_str()) {
            Ok(environment) => environment.root,
            Err(error) => {
                return Err(error);
            },
        },
    };
    let plan = Supervisor::plan_for(&items, root.as_str(), 0);
    let records: Vec<ItemRecord> = Vec::new();
    assert(record_views(records@) =~= Seq::<ItemRecordView>::empty());
    *supervisor = Supervisor {
        state: RunState::Running { current: 0, records },
        items,
        root,
        cancel_requested: false,
        terminate_requested: false,
    };
    Ok(Directive::Launch(plan))
}

/// Requests the cancellation of the active run.
///
/// Returns `NotRunning`, and changes nothing, while no run is active.
/// Otherwise the request is noted: the process of the current item is to be
/// terminated at the next wake, and no further item is launched.
pub fn kill_tedana(supervisor: &mut Supervisor) -> (cancelled: Result<(), Error>)
    ensures
        (final(supervisor)@, cancelled) == cancel_step(old(supervisor)@),
        final(supervisor)@.wf(),
{
    if !supervisor.is_running() {
        return Err(Error::NotRunning);
    }
    // The supervisor is taken out whole and put back whole, so that it is
    // well formed whenever it can be seen.
    let mut taken = Supervisor::new();
    core::mem::swap(supervisor, &mut taken);
    let Supervisor { state, items, root, cancel_requested: _, terminate_requested } = taken;
    *supervisor = Supervisor { state, items, root, cancel_requested: true, terminate_requested };
    Ok(())
}

/// Decides what the loop that waits on the current item's process does at a
/// wake, given whether the exit probe found the process exited.
pub fn wake(supervisor: &mut Supervisor, exited: bool) -> (action: Option<WaitAction>)
    ensures
        (final(supervisor)@, action) == wake_step(old(supervisor)@, exited),
        final(supervisor)@.wf(),
{
    if !supervisor.is_running() {
        return None;
    }
    if exited {
        return Some(WaitAction::Collect);
    }
    let mut taken = Supervisor::new();
    core::mem::swap(supervisor, &mut taken);
    let Supervisor { state, items, root, cancel_requested, terminate_requested } = taken;
    let terminate = cancel_requested && !terminate_requested;
    *supervisor = Supervisor {
        state,
        items,
        root,
        cancel_requested,
        terminate_requested: terminate_requested || terminate,
    };
    if terminate {
        Some(WaitAction::Terminate)
    } else {
        Some(WaitAction::Wait)
    }
}

/// Takes the result of the current item and decides how the run goes on.
///
/// The item's record is added to those before it. The run ends, and the
/// supervisor is at rest again, where a cancellation was requested, where the
/// item failed, or where it was the last. Otherwise the next item is to be
/// launched. Returns nothing, and changes nothing, while no run is active.
pub fn item_finished(supervisor: &mut Supervisor, result: ItemResult) -> (directive: Option<
    Directive,
>)
    ensures
        (final(supervisor)@, directive_view(directive)) == finish_step(
            old(supervisor)@,
            result@,
        ),
        final(supervisor)@.wf(),
{
    if !supervisor.is_running() {
        return None;
    }
    let mut taken = Supervisor::new();
    core::mem::swap(supervisor, &mut taken);
    let Supervisor { state, items, root, cancel_requested, terminate_requested } = taken;
    match state {
        RunState::Running { current, records } => {
            let mut records = records;
            let ghost earlier = record_views(records@);
            assert(current < items.len());
            let (transcript, failure) = match result {
                ItemResult::Skipped => {
                    if cancel_requested {
                        return Some(Directive::Finish(RunState::Cancelled { records }));
                    }
                    let plan = Supervisor::plan_for(&items, root.as_str(), current);
                    *supervisor = Supervisor {
                        state: RunState::Running { current, records },
                        items,
                        root,
                        cancel_requested,
                        terminate_requested,
                    };
                    return Some(Directive::Launch(plan));
                },
                ItemResult::SpawnFailed { message } => (
                    Transcript::new(),
                    Some(Failure::Spawn { item: current, message }),
                ),
                ItemResult::WaitFailed { message, transcript } => (
                    transcript,
                    Some(Failure::Wait { item: current, message }),
                ),
                ItemResult::Exited { status, transcript } => {
                    let failure = if !status.success() {
                        Some(Failure::ExitStatus { item: current, code: status.code })
                    } else if transcript.saw_marker() {
                        Some(Failure::DiagnosticMarker { item: current })
                    } else {
                        None
                    };
                    (transcript, failure)
                },
            };
            let record = ItemRecord {
                primary_key: items[current].primary_key.clone(),
                secondary_key: items[current].secondary_key.clone(),
                transcript,
            };
            let ghost closing = record@;
            records.push(record);
            proof {
                assert(record_views(records@) =~= earlier.push(closing));
            }
            if cancel_requested {
                Some(Directive::Finish(RunState::Cancelled { records }))
            } else if let Some(reason) = failure {
                Some(Directive::Finish(RunState::Failed { reason, records }))
            } else if current + 1 < items.len() {
                let plan = Supervisor::plan_for(&items, root.as_str(), current + 1);
                *supervisor = Supervisor {
                    state: RunState::Running { current: current + 1, records },
                    items,
                    root,
                    cancel_requested,
                    terminate_requested,
                };
                Some(Directive::Launch(plan))
            } else {
                Some(Directive::Finish(RunState::Completed { records }))
            }
        },
        _ => None,
    }
}

} // verus!
