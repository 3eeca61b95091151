//! What becomes of the items of a run, and of the run itself: the result of
//! each process, the record kept of each item, why an item failed, and the
//! states a run goes through.

use vstd::prelude::*;
use vstd::string::*;
use crate::error::Error;
use crate::transcript::{rendered, Origin, Transcript, TranscriptView};

verus! {

/// How a process ended: its exit code, or none where a signal ended it.
#[derive(Clone, Copy, Debug)]
pub struct ExitStatus {
    pub code: Option<i32>,
}

impl ExitStatus {
    /// The process ran to its end and reported success.
    pub open spec fn succeeded(self) -> bool {
        self.code == Some(0i32)
    }

    /// Whether the process ran to its end and reported success.
    pub fn success(&self) -> (ok: bool)
        ensures
            ok == self.succeeded(),
    {
        match self.code {
            Some(code) => code == 0,
            None => false,
        }
    }
}

/// What became of one work item: its keys and what its process wrote.
#[derive(Debug)]
pub struct ItemRecord {
    pub primary_key: String,
    pub secondary_key: String,
    pub transcript: Transcript,
}

/// What an item record holds.
pub struct ItemRecordView {
    pub primary_key: Seq<char>,
    pub secondary_key: Seq<char>,
    pub transcript: TranscriptView,
}

impl View for ItemRecord {
    type V = ItemRecordView;

    open spec fn view(&self) -> ItemRecordView {
        ItemRecordView {
            primary_key: self.primary_key@,
            secondary_key: self.secondary_key@,
            transcript: self.transcript@,
        }
    }
}

/// The views of a sequence of item records.
pub open spec fn record_views(records: Seq<ItemRecord>) -> Seq<ItemRecordView> {
    records.map_values(|record: ItemRecord| record@)
}

/// The overall transcript: the transcripts of the items, one after the other.
pub open spec fn overall_text(records: Seq<ItemRecordView>) -> Seq<char>
    decreases records.len(),
{
    if records.len() == 0 {
        Seq::empty()
    } else {
        overall_text(records.drop_last()) + rendered(records.last().transcript.lines)
    }
}

/// Renders the overall transcript of the items dealt with.
pub fn overall_transcript(records: &Vec<ItemRecord>) -> (text: String)
    ensures
        text@ == overall_text(record_views(records@)),
{
    let mut text = String::new();
    let mut i: usize = 0;
    while i < records.len()
        invariant
            i <= records.len(),
            text@ == overall_text(record_views(records@).take(i as int)),
        decreases records.len() - i,
    {
        let part = records[i].transcript.render();
        proof {
            let views = record_views(records@);
            assert(views.take(i + 1).drop_last() =~= views.take(i as int));
        }
        text.append(part.as_str());
        i += 1;
    }
    proof {
        assert(record_views(records@).take(i as int) =~= record_views(records@));
    }
    text
}

/// Why an item failed. `item` is the position of the item in the batch.
#[derive(Debug)]
pub enum Failure {
    /// The executable could not be started.
    Spawn { item: usize, message: String },
    /// Waiting for the process failed.
    Wait { item: usize, message: String },
    /// The process did not exit with status zero.
    ExitStatus { item: usize, code: Option<i32> },
    /// The process exited with status zero, but a line of its diagnostic
    /// stream held the error marker.
    DiagnosticMarker { item: usize },
}

/// What a failure holds.
pub enum FailureView {
    Spawn { item: nat, message: Seq<char> },
    Wait { item: nat, message: Seq<char> },
    ExitStatus { item: nat, code: Option<i32> },
    DiagnosticMarker { item: nat },
}

impl View for Failure {
    type V = FailureView;

    open spec fn view(&self) -> FailureView {
        match self {
            Failure::Spawn { item, message } => FailureView::Spawn {
                item: *item as nat,
                message: message@,
            },
            Failure::Wait { item, message } => FailureView::Wait {
                item: *item as nat,
                message: message@,
            },
            Failure::ExitStatus { item, code } => FailureView::ExitStatus {
                item: *item as nat,
                code: *code,
            },
            Failure::DiagnosticMarker { item } => FailureView::DiagnosticMarker {
                item: *item as nat,
            },
        }
    }
}

impl FailureView {
    /// The kind of error this failure is reported as.
    pub open spec fn error(self) -> Error {
        match self {
            FailureView::Spawn { .. } => Error::SpawnError,
            FailureView::Wait { .. } => Error::ProcessFailure,
            FailureView::ExitStatus { .. } => Error::ProcessFailure,
            FailureView::DiagnosticMarker { .. } => Error::ProcessFailure,
        }
    }

    /// The position in the batch of the item that failed.
    pub open spec fn item(self) -> nat {
        match self {
            FailureView::Spawn { item, .. } => item,
            FailureView::Wait { item, .. } => item,
            FailureView::ExitStatus { item, .. } => item,
            FailureView::DiagnosticMarker { item } => item,
        }
    }

    /// The stream whose content caused the failure, if one did.
    pub open spec fn stream(self) -> Option<Origin> {
        match self {
            FailureView::DiagnosticMarker { .. } => Some(Origin::Diagnostic),
            _ => None,
        }
    }

    /// The text shown for this failure.
    pub open spec fn message(self) -> Seq<char> {
        match self {
            FailureView::Spawn { message, .. } => "Failed to start process: "@ + message,
            FailureView::Wait { message, .. } => "Failed to wait on child: "@ + message,
            FailureView::ExitStatus { .. } => "Tedana execution failed"@,
            FailureView::DiagnosticMarker { .. } => "Tedana execution failed"@,
        }
    }
}

impl Failure {
    /// The kind of error this failure is reported as.
    pub fn error(&self) -> (error: Error)
        ensures
            error == self@.error(),
    {
        match self {
            Failure::Spawn { .. } => Error::SpawnError,
            Failure::Wait { .. } => Error::ProcessFailure,
            Failure::ExitStatus { .. } => Error::ProcessFailure,
            Failure::DiagnosticMarker { .. } => Error::ProcessFailure,
        }
    }

    /// The position in the batch of the item that failed.
    pub fn item(&self) -> (item: usize)
        ensures
            item == self@.item(),
    {
        match self {
            Failure::Spawn { item, .. } => *item,
            Failure::Wait { item, .. } => *item,
            Failure::ExitStatus { item, .. } => *item,
            Failure::DiagnosticMarker { item } => *item,
        }
    }

    /// The stream whose content caused the failure, if one did.
    pub fn stream(&self) -> (stream: Option<Origin>)
        ensures
            stream == self@.stream(),
    {
        match self {
            Failure::DiagnosticMarker { .. } => Some(Origin::Diagnostic),
            _ => None,
        }
    }

    /// Renders this failure for display.
    pub fn message(&self) -> (text: String)
        ensures
            text@ == self@.message(),
    {
        match self {
            Failure::Spawn { message, .. } => {
                let mut text = String::from_str("Failed to start process: ");
                text.append(message.as_str());
                text
            },
            Failure::Wait { message, .. } => {
                let mut text = String::from_str("Failed to wait on child: ");
                text.append(message.as_str());
                text
            },
            Failure::ExitStatus { .. } => String::from_str("Tedana execution failed"),
            Failure::DiagnosticMarker { .. } => String::from_str("Tedana execution failed"),
        }
    }
}

/// The state of the supervisor. At rest it is `Idle` or `Running`; the other
/// three are the outcomes of a run, handed to the caller when the run ends.
#[derive(Debug)]
pub enum RunState {
    /// No run is active.
    Idle,
    /// A run is active: the position of the item in progress and the records
    /// of the items before it.
    Running { current: usize, records: Vec<ItemRecord> },
    /// The run was stopped on request.
    Cancelled { records: Vec<ItemRecord> },
    /// An item failed.
    Failed { reason: Failure, records: Vec<ItemRecord> },
    /// Every item succeeded.
    Completed { records: Vec<ItemRecord> },
}

/// What a run state holds.
pub enum RunStateView {
    Idle,
    Running { current: nat, records: Seq<ItemRecordView> },
    Cancelled { records: Seq<ItemRecordView> },
    Failed { reason: FailureView, records: Seq<ItemRecordView> },
    Completed { records: Seq<ItemRecordView> },
}

impl View for RunState {
    type V = RunStateView;

    open spec fn view(&self) -> RunStateView {
        match self {
            RunState::Idle => RunStateView::Idle,
            RunState::Running { current, records } => RunStateView::Running {
                current: *current as nat,
                records: record_views(records@),
            },
            RunState::Cancelled { records } => RunStateView::Cancelled {
                records: record_views(records@),
            },
            RunState::Failed { reason, records } => RunStateView::Failed {
                reason: reason@,
                records: record_views(records@),
            },
            RunState::Completed { records } => RunStateView::Completed {
                records: record_views(records@),
            },
        }
    }
}

impl RunStateView {
    /// The error that this state reports, if it is the outcome of a run that
    /// did not complete.
    pub open spec fn error(self) -> Option<Error> {
        match self {
            RunStateView::Cancelled { .. } => Some(Error::Cancelled),
            RunStateView::Failed { reason, .. } => Some(reason.error()),
            _ => None,
        }
    }

    /// The word for this state.
    pub open spec fn label(self) -> Seq<char> {
        match self {
            RunStateView::Idle => "idle"@,
            RunStateView::Running { .. } => "running"@,
            RunStateView::Cancelled { .. } => "cancelled"@,
            RunStateView::Failed { .. } => "failed"@,
            RunStateView::Completed { .. } => "completed"@,
        }
    }

    /// The text shown for the error that this state reports, if it reports
    /// one.
    pub open spec fn message(self) -> Option<Seq<char>> {
        match self {
            RunStateView::Cancelled { .. } => Some(Error::Cancelled.message_text()),
            RunStateView::Failed { reason, .. } => Some(reason.message()),
            _ => None,
        }
    }

    /// The records of the items dealt with so far.
    pub open spec fn records(self) -> Seq<ItemRecordView> {
        match self {
            RunStateView::Idle => Seq::empty(),
            RunStateView::Running { records, .. } => records,
            RunStateView::Cancelled { records } => records,
            RunStateView::Failed { records, .. } => records,
            RunStateView::Completed { records } => records,
        }
    }

    /// This state is the outcome of a run.
    pub open spec fn is_outcome(self) -> bool {
        self is Cancelled || self is Failed || self is Completed
    }
}

impl RunState {
    /// The word for this state.
    pub fn label(&self) -> (word: String)
        ensures
            word@ == self@.label(),
    {
        match self {
            RunState::Idle => String::from_str("idle"),
            RunState::Running { .. } => String::from_str("running"),
            RunState::Cancelled { .. } => String::from_str("cancelled"),
            RunState::Failed { .. } => String::from_str("failed"),
            RunState::Completed { .. } => String::from_str("completed"),
        }
    }

    /// The text shown for the error that this state reports, if it reports
    /// one.
    pub fn message(&self) -> (text: Option<String>)
        ensures
            match text {
                Some(text) => self@.message() == Some(text@),
                None => self@.message() is None,
            },
    {
        match self {
            RunState::Cancelled { .. } => Some(Error::Cancelled.message()),
            RunState::Failed { reason, .. } => Some(reason.message()),
            _ => None,
        }
    }

    /// The records of the items dealt with so far.
    pub fn records(&self) -> (records: Option<&Vec<ItemRecord>>)
        ensures
            match records {
                Some(records) => !(self is Idle) && record_views(records@) == self@.records(),
                None => self is Idle,
            },
    {
        match self {
            RunState::Idle => None,
            RunState::Running { records, .. } => Some(records),
            RunState::Cancelled { records } => Some(records),
            RunState::Failed { records, .. } => Some(records),
            RunState::Completed { records } => Some(records),
        }
    }

    /// The error that this state reports, if it is the outcome of a run that
    /// did not complete.
    pub fn error(&self) -> (error: Option<Error>)
        ensures
            error == self@.error(),
    {
        match self {
            RunState::Cancelled { .. } => Some(Error::Cancelled),
            RunState::Failed { reason, .. } => Some(reason.error()),
            _ => None,
        }
    }
}

/// What the caller reports when the process of an item is over.
#[derive(Debug)]
pub enum ItemResult {
    /// The process was not started, because starting was no longer allowed.
    Skipped,
    /// The executable could not be started.
    SpawnFailed { message: String },
    /// The process was started, but waiting for its end failed.
    WaitFailed { message: String, transcript: Transcript },
    /// The process has ended and both of its streams are drained.
    Exited { status: ExitStatus, transcript: Transcript },
}

/// What an item result holds.
pub enum ItemResultView {
    Skipped,
    SpawnFailed { message: Seq<char> },
    WaitFailed { message: Seq<char>, transcript: TranscriptView },
    Exited { status: ExitStatus, transcript: TranscriptView },
}

impl View for ItemResult {
    type V = ItemResultView;

    open spec fn view(&self) -> ItemResultView {
        match self {
            ItemResult::Skipped => ItemResultView::Skipped,
            ItemResult::SpawnFailed { message } => ItemResultView::SpawnFailed {
                message: message@,
            },
            ItemResult::WaitFailed { message, transcript } => ItemResultView::WaitFailed {
                message: message@,
                transcript: transcript@,
            },
            ItemResult::Exited { status, transcript } => ItemResultView::Exited {
                status: *status,
                transcript: transcript@,
            },
        }
    }
}

impl ItemResultView {
    /// What the process wrote; nothing where it never started.
    pub open spec fn transcript(self) -> TranscriptView {
        match self {
            ItemResultView::WaitFailed { transcript, .. } => transcript,
            ItemResultView::Exited { transcript, .. } => transcript,
            _ => TranscriptView { lines: Seq::empty(), saw_marker: false },
        }
    }

    /// The process ran to its end, exited with status zero and wrote no
    /// diagnostic line with the marker.
    pub open spec fn succeeded(self) -> bool {
        self matches ItemResultView::Exited { status, transcript } && status.succeeded()
            && !transcript.saw_marker
    }

    /// Why the item counts as failed, if it does: it did not start, its end
    /// could not be waited for, it did not exit with status zero, or its
    /// diagnostic stream held the marker.
    pub open spec fn failure(self, item: nat) -> Option<FailureView> {
        match self {
            ItemResultView::Skipped => None,
            ItemResultView::SpawnFailed { message } => Some(FailureView::Spawn { item, message }),
            ItemResultView::WaitFailed { message, .. } => Some(
                FailureView::Wait { item, message },
            ),
            ItemResultView::Exited { status, transcript } => if !status.succeeded() {
                Some(FailureView::ExitStatus { item, code: status.code })
            } else if transcript.saw_marker {
                Some(FailureView::DiagnosticMarker { item })
            } else {
                None
            },
        }
    }
}

} // verus!
