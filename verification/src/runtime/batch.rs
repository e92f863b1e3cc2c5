//! The files of a batch: how they are worked on, how far they are and what became of them.
use vstd::prelude::*;

use crate::backend::ProgressSnapshot;
use crate::model::DurationMicros;
use crate::number;
use crate::path::FilePath;
use crate::runtime::prepare::{
    CancellationReason, FailurePolicy, FileOutcome, FileOutcomeView, FileRequest, FileRequestView,
};
use crate::text;

verus! {

/// The most files that are worked on at once.
pub const MAX_CONCURRENCY: usize = 64;

/// The place of a file in its batch.
#[derive(Debug, Clone, Copy, PartialEq, Eq, PartialOrd, Ord, Hash)]
pub struct JobId(usize);

impl View for JobId {
    type V = usize;

    closed spec fn view(&self) -> usize {
        self.0
    }
}

impl JobId {
    /// The place of a file in its batch, counted from zero.
    pub fn new(place: usize) -> (r: Self)
        ensures
            r@ == place,
    {
        JobId(place)
    }

    /// The place, counted from zero.
    pub fn get(self) -> (r: usize)
        ensures
            r == self@,
    {
        self.0
    }
}

/// Why a batch could not be worked on.
#[derive(Debug, PartialEq, Eq)]
pub enum SchedulerError {
    /// Too many files at once were asked for.
    InvalidConcurrency {
        /// How many.
        value: usize,
        /// The most.
        maximum: usize,
    },
    /// The task did not finish.
    Supervisor {
        /// What went wrong.
        message: String,
    },
}

/// Why a batch could not be worked on.
pub enum SchedulerErrorView {
    /// Too many files at once were asked for.
    InvalidConcurrency {
        /// How many.
        value: usize,
        /// The most.
        maximum: usize,
    },
    /// The task did not finish.
    Supervisor {
        /// What went wrong.
        message: Seq<char>,
    },
}

impl View for SchedulerError {
    type V = SchedulerErrorView;

    open spec fn view(&self) -> SchedulerErrorView {
        match self {
            SchedulerError::InvalidConcurrency { value, maximum } => SchedulerErrorView::InvalidConcurrency {
                value: *value,
                maximum: *maximum,
            },
            SchedulerError::Supervisor { message } => SchedulerErrorView::Supervisor {
                message: message@,
            },
        }
    }
}

impl DeepView for SchedulerError {
    type V = SchedulerErrorView;

    open spec fn deep_view(&self) -> SchedulerErrorView {
        self@
    }
}

impl SchedulerErrorView {
    /// The user-facing description.
    pub open spec fn message(self) -> Seq<char> {
        match self {
            SchedulerErrorView::InvalidConcurrency { value, maximum } => "scheduler concurrency "@ + number::decimal(value as int) + " exceeds maximum "@ + number::decimal(maximum as int),
            SchedulerErrorView::Supervisor { message } => "batch supervisor task failed: "@ + message,
        }
    }
}

impl SchedulerError {
    /// The user-facing description.
    pub fn message(&self) -> (r: String)
        ensures
            r@ == self@.message(),
    {
        match self {
            SchedulerError::InvalidConcurrency { value, maximum } => {
                let mut out = text::concat3("scheduler concurrency ", number::show_usize(*value).as_str(), " exceeds maximum ");
                text::push_text(&mut out, number::show_usize(*maximum).as_str());
                out
            },
            SchedulerError::Supervisor { message } => text::concat2("batch supervisor task failed: ", message.as_str()),
        }
    }
}

/// How a batch is worked on.
#[derive(Debug, Clone, Copy, PartialEq, Eq)]
pub struct SchedulerOptions {
    max_concurrency: usize,
    failure_policy: FailurePolicy,
    dry_run: bool,
}

/// How a batch is worked on.
pub struct OptionsView {
    /// The most files at once.
    pub max_concurrency: usize,
    /// What a failure means for the other files.
    pub failure_policy: FailurePolicy,
    /// Whether nothing is converted.
    pub dry_run: bool,
}

impl View for SchedulerOptions {
    type V = OptionsView;

    closed spec fn view(&self) -> OptionsView {
        OptionsView {
            max_concurrency: self.max_concurrency,
            failure_policy: self.failure_policy,
            dry_run: self.dry_run,
        }
    }
}

impl SchedulerOptions {
    /// There is always a file that may be worked on, and never more than the limit.
    #[verifier::type_invariant]
    pub closed spec fn in_range(self) -> bool {
        0 < self@.max_concurrency <= MAX_CONCURRENCY
    }

    /// How a batch is worked on. It is refused where more files at once are asked for than the
    /// limit allows.
    pub fn new(max_concurrency: usize, failure_policy: FailurePolicy, dry_run: bool) -> (r: Result<
        Self,
        SchedulerError,
    >)
        requires
            max_concurrency > 0,
        ensures
            match r {
                Ok(o) => max_concurrency <= MAX_CONCURRENCY && o@ == (OptionsView {
                    max_concurrency,
                    failure_policy,
                    dry_run,
                }),
                Err(e) => max_concurrency > MAX_CONCURRENCY && e@ == (
                SchedulerErrorView::InvalidConcurrency {
                    value: max_concurrency,
                    maximum: MAX_CONCURRENCY,
                }),
            },
    {
        if max_concurrency > MAX_CONCURRENCY {
            return Err(
                SchedulerError::InvalidConcurrency {
                    value: max_concurrency,
                    maximum: MAX_CONCURRENCY,
                },
            );
        }
        Ok(SchedulerOptions { max_concurrency, failure_policy, dry_run })
    }

    /// The most files at once.
    pub fn max_concurrency(self) -> (r: usize)
        ensures
            r == self@.max_concurrency,
            0 < r <= MAX_CONCURRENCY,
    {
        proof {
            use_type_invariant(&self);
        }
        self.max_concurrency
    }

    /// What a failure means for the other files.
    pub fn failure_policy(self) -> (r: FailurePolicy)
        ensures
            r == self@.failure_policy,
    {
        self.failure_policy
    }

    /// Whether nothing is converted.
    pub fn dry_run(self) -> (r: bool)
        ensures
            r == self@.dry_run,
    {
        self.dry_run
    }
}

/// The files of a batch and how they are worked on.
#[derive(Debug, PartialEq, Eq)]
pub struct BatchRequest {
    files: Vec<FileRequest>,
    options: SchedulerOptions,
}

/// The files of a batch and how they are worked on.
pub struct BatchRequestView {
    /// The files in order.
    pub files: Seq<FileRequestView>,
    /// How they are worked on.
    pub options: OptionsView,
}

impl View for BatchRequest {
    type V = BatchRequestView;

    closed spec fn view(&self) -> BatchRequestView {
        BatchRequestView {
            files: self.files.deep_view(),
            options: self.options@,
        }
    }
}

impl DeepView for BatchRequest {
    type V = BatchRequestView;

    open spec fn deep_view(&self) -> BatchRequestView {
        self@
    }
}

impl Clone for BatchRequest {
    fn clone(&self) -> (r: Self)
        ensures
            r@ == self@,
    {
        let r = BatchRequest {
            files: self.files.clone(),
            options: self.options,
        };
        proof {
            assert(r.files.deep_view() =~= self.files.deep_view());
        }
        r
    }
}

impl BatchRequest {
    /// The files of a batch and how they are worked on.
    pub fn new(files: Vec<FileRequest>, options: SchedulerOptions) -> (r: Self)
        ensures
            r@ == (BatchRequestView {
                files: files.deep_view(),
                options: options@,
            }),
    {
        BatchRequest { files, options }
    }

    /// The files in order.
    pub fn files(&self) -> (r: &Vec<FileRequest>)
        ensures
            r.deep_view() == self@.files,
    {
        &self.files
    }

    /// How they are worked on.
    pub fn options(&self) -> (r: SchedulerOptions)
        ensures
            r@ == self@.options,
    {
        self.options
    }
}

impl BatchRequest {
    /// The number of files.
    pub fn len(&self) -> (r: usize)
        ensures
            r == self@.files.len(),
    {
        proof {
            assert(self.files.deep_view().len() == self.files@.len());
        }
        self.files.len()
    }

    /// Whether there are no files.
    pub fn is_empty(&self) -> (r: bool)
        ensures
            r == (self@.files.len() == 0),
    {
        proof {
            assert(self.files.deep_view().len() == self.files@.len());
        }
        self.files.len() == 0
    }
}

/// A file and what became of it.
#[derive(Debug, PartialEq, Eq)]
pub struct FileResult {
    id: JobId,
    input: FilePath,
    outcome: FileOutcome,
}

/// A file and what became of it.
pub struct FileResultView {
    /// Its place.
    pub id: usize,
    /// The file.
    pub input: Seq<u8>,
    /// What became of it.
    pub outcome: FileOutcomeView,
}

impl View for FileResult {
    type V = FileResultView;

    closed spec fn view(&self) -> FileResultView {
        FileResultView {
            id: self.id@,
            input: self.input@,
            outcome: self.outcome@,
        }
    }
}

impl DeepView for FileResult {
    type V = FileResultView;

    open spec fn deep_view(&self) -> FileResultView {
        self@
    }
}

impl Clone for FileResult {
    fn clone(&self) -> (r: Self)
        ensures
            r@ == self@,
    {
        let r = FileResult {
            id: self.id,
            input: self.input.clone(),
            outcome: self.outcome.clone(),
        };
        r
    }
}

impl FileResult {
    /// A file and what became of it.
    pub fn new(id: JobId, input: FilePath, outcome: FileOutcome) -> (r: Self)
        ensures
            r@ == (FileResultView {
                id: id@,
                input: input@,
                outcome: outcome@,
            }),
    {
        FileResult { id, input, outcome }
    }

    /// Its place.
    pub fn id(&self) -> (r: JobId)
        ensures
            r@ == self@.id,
    {
        self.id
    }

    /// The file.
    pub fn input(&self) -> (r: &FilePath)
        ensures
            r@ == self@.input,
    {
        &self.input
    }

    /// What became of it.
    pub fn outcome(&self) -> (r: &FileOutcome)
        ensures
            r@ == self@.outcome,
    {
        &self.outcome
    }
}

/// What became of a batch.
#[derive(Debug, PartialEq, Eq)]
pub struct BatchReport {
    results: Vec<FileResult>,
    cancellation: Option<CancellationReason>,
}

/// What became of a batch.
pub struct BatchReportView {
    /// The files in order.
    pub results: Seq<FileResultView>,
    /// Who cancelled the batch.
    pub cancellation: Option<CancellationReason>,
}

impl View for BatchReport {
    type V = BatchReportView;

    closed spec fn view(&self) -> BatchReportView {
        BatchReportView {
            results: self.results.deep_view(),
            cancellation: self.cancellation,
        }
    }
}

impl DeepView for BatchReport {
    type V = BatchReportView;

    open spec fn deep_view(&self) -> BatchReportView {
        self@
    }
}

impl Clone for BatchReport {
    fn clone(&self) -> (r: Self)
        ensures
            r@ == self@,
    {
        let r = BatchReport {
            results: self.results.clone(),
            cancellation: self.cancellation,
        };
        proof {
            assert(r.results.deep_view() =~= self.results.deep_view());
        }
        r
    }
}

impl BatchReport {
    /// What became of a batch.
    pub fn new(results: Vec<FileResult>, cancellation: Option<CancellationReason>) -> (r: Self)
        ensures
            r@ == (BatchReportView {
                results: results.deep_view(),
                cancellation: cancellation,
            }),
    {
        BatchReport { results, cancellation }
    }

    /// The files in order.
    pub fn results(&self) -> (r: &Vec<FileResult>)
        ensures
            r.deep_view() == self@.results,
    {
        &self.results
    }

    /// Who cancelled the batch.
    pub fn cancellation(&self) -> (r: Option<CancellationReason>)
        ensures
            r == self@.cancellation,
    {
        self.cancellation
    }
}

/// How many of the files failed.
pub open spec fn failures(results: Seq<FileResultView>) -> nat
    decreases results.len(),
{
    if results.len() == 0 {
        0
    } else {
        failures(results.drop_last()) + if results.last().outcome is Failed {
            1nat
        } else {
            0
        }
    }
}

impl BatchReport {
    /// How many of the files failed.
    pub fn failure_count(&self) -> (r: usize)
        ensures
            r == failures(self@.results),
    {
        let ghost all = self.results.deep_view();
        let mut count: usize = 0;
        let mut i: usize = 0;
        while i < self.results.len()
            invariant
                all == self.results.deep_view(),
                i <= self.results@.len(),
                count <= i,
                count == failures(all.take(i as int)),
            decreases self.results@.len() - i,
        {
            proof {
                assert(all[i as int] == self.results@[i as int]@);
                assert(all.take(i + 1).drop_last() =~= all.take(i as int));
            }
            match self.results[i].outcome() {
                FileOutcome::Failed(_) => {
                    count = count + 1;
                },
                _ => {},
            }
            i = i + 1;
        }
        proof {
            assert(all.take(i as int) =~= all);
        }
        count
    }
}

/// How far a batch is.
#[derive(Debug, Clone, Copy, PartialEq, Eq, Structural)]
pub enum BatchStage {
    /// Its files are inspected.
    Preparing,
    /// Its files are converted.
    Executing,
    /// It is over.
    Finished,
    /// The user cancelled it.
    Cancelled,
}

impl DeepView for BatchStage {
    type V = BatchStage;

    open spec fn deep_view(&self) -> BatchStage {
        *self
    }
}

impl BatchStage {
    /// The name in machine output.
    pub open spec fn label(self) -> Seq<char> {
        match self {
            BatchStage::Preparing => "preparing"@,
            BatchStage::Executing => "executing"@,
            BatchStage::Finished => "finished"@,
            BatchStage::Cancelled => "cancelled"@,
        }
    }

    /// The name in machine output.
    pub fn as_str(self) -> (r: &'static str)
        ensures
            r@ == self.label(),
    {
        match self {
            BatchStage::Preparing => "preparing",
            BatchStage::Executing => "executing",
            BatchStage::Finished => "finished",
            BatchStage::Cancelled => "cancelled",
        }
    }
}

/// How far a file is.
#[derive(Debug, Clone, Copy, PartialEq, Eq, Structural)]
pub enum FileStatus {
    /// It waits for its preparation.
    Queued,
    /// It is inspected.
    Preparing,
    /// It waits for its conversion.
    Ready,
    /// It is converted.
    Running,
    /// Its output was published.
    Succeeded,
    /// Nothing had to be done.
    Skipped,
    /// Something would be done.
    Planned,
    /// The work on it failed.
    Failed,
    /// The work on it was cancelled.
    Cancelled,
}

impl DeepView for FileStatus {
    type V = FileStatus;

    open spec fn deep_view(&self) -> FileStatus {
        *self
    }
}

impl FileStatus {
    /// The name in machine output.
    pub open spec fn label(self) -> Seq<char> {
        match self {
            FileStatus::Queued => "queued"@,
            FileStatus::Preparing => "preparing"@,
            FileStatus::Ready => "ready"@,
            FileStatus::Running => "running"@,
            FileStatus::Succeeded => "succeeded"@,
            FileStatus::Skipped => "skipped"@,
            FileStatus::Planned => "planned"@,
            FileStatus::Failed => "failed"@,
            FileStatus::Cancelled => "cancelled"@,
        }
    }

    /// The name in machine output.
    pub fn as_str(self) -> (r: &'static str)
        ensures
            r@ == self.label(),
    {
        match self {
            FileStatus::Queued => "queued",
            FileStatus::Preparing => "preparing",
            FileStatus::Ready => "ready",
            FileStatus::Running => "running",
            FileStatus::Succeeded => "succeeded",
            FileStatus::Skipped => "skipped",
            FileStatus::Planned => "planned",
            FileStatus::Failed => "failed",
            FileStatus::Cancelled => "cancelled",
        }
    }
}

impl FileStatus {
    /// Whether the work on the file is over.
    pub open spec fn over(self) -> bool {
        match self {
            FileStatus::Succeeded => true,
            FileStatus::Skipped => true,
            FileStatus::Planned => true,
            FileStatus::Failed => true,
            FileStatus::Cancelled => true,
            _ => false,
        }
    }

    /// Whether the file is being worked on.
    pub open spec fn busy(self) -> bool {
        self == FileStatus::Preparing || self == FileStatus::Running
    }

    /// Whether the work on the file is over.
    pub fn is_terminal(self) -> (r: bool)
        ensures
            r == self.over(),
    {
        match self {
            FileStatus::Succeeded => true,
            FileStatus::Skipped => true,
            FileStatus::Planned => true,
            FileStatus::Failed => true,
            FileStatus::Cancelled => true,
            _ => false,
        }
    }

    fn is_busy(self) -> (r: bool)
        ensures
            r == self.busy(),
    {
        match self {
            FileStatus::Preparing => true,
            FileStatus::Running => true,
            _ => false,
        }
    }
}

/// The status that goes with an outcome.
pub open spec fn status_of(outcome: FileOutcomeView) -> FileStatus {
    match outcome {
        FileOutcomeView::Succeeded(_) => FileStatus::Succeeded,
        FileOutcomeView::Skipped(_) => FileStatus::Skipped,
        FileOutcomeView::Planned(_) => FileStatus::Planned,
        FileOutcomeView::Failed(_) => FileStatus::Failed,
        FileOutcomeView::Cancelled(_) => FileStatus::Cancelled,
    }
}

/// The status that goes with an outcome.
pub fn status_for_outcome(outcome: &FileOutcome) -> (r: FileStatus)
    ensures
        r == status_of(outcome@),
{
    match outcome {
        FileOutcome::Succeeded(_) => FileStatus::Succeeded,
        FileOutcome::Skipped(_) => FileStatus::Skipped,
        FileOutcome::Planned(_) => FileStatus::Planned,
        FileOutcome::Failed(_) => FileStatus::Failed,
        FileOutcome::Cancelled(_) => FileStatus::Cancelled,
    }
}

/// How far one file is.
#[derive(Debug, PartialEq, Eq)]
pub struct FileProgressState {
    /// Its place.
    pub id: JobId,
    /// The file.
    pub path: FilePath,
    /// How far it is.
    pub status: FileStatus,
    /// Its duration in microseconds.
    pub duration_us: Option<u64>,
    /// How much of it is converted, in microseconds.
    pub position_us: Option<u64>,
    /// The speed in thousandths of the playback speed.
    pub speed_milli: Option<u32>,
    /// The time that is left in microseconds.
    pub eta_us: Option<u64>,
    /// Whether it is to be converted.
    pub will_execute: bool,
}

/// How far one file is.
pub struct FileStateView {
    /// Its place.
    pub id: usize,
    /// The file.
    pub path: Seq<u8>,
    /// How far it is.
    pub status: FileStatus,
    /// Its duration in microseconds.
    pub duration_us: Option<u64>,
    /// How much of it is converted, in microseconds.
    pub position_us: Option<u64>,
    /// The speed in thousandths of the playback speed.
    pub speed_milli: Option<u32>,
    /// The time that is left in microseconds.
    pub eta_us: Option<u64>,
    /// Whether it is to be converted.
    pub will_execute: bool,
}

impl View for FileProgressState {
    type V = FileStateView;

    open spec fn view(&self) -> FileStateView {
        FileStateView {
            id: self.id@,
            path: self.path@,
            status: self.status,
            duration_us: self.duration_us,
            position_us: self.position_us,
            speed_milli: self.speed_milli,
            eta_us: self.eta_us,
            will_execute: self.will_execute,
        }
    }
}

impl DeepView for FileProgressState {
    type V = FileStateView;

    open spec fn deep_view(&self) -> FileStateView {
        self@
    }
}

impl Clone for FileProgressState {
    fn clone(&self) -> (r: Self)
        ensures
            r@ == self@,
    {
        let r = FileProgressState {
            id: self.id,
            path: self.path.clone(),
            status: self.status,
            duration_us: self.duration_us,
            position_us: self.position_us,
            speed_milli: self.speed_milli,
            eta_us: self.eta_us,
            will_execute: self.will_execute,
        };
        r
    }
}

/// A time in microseconds, where it is known.
fn as_duration(value: Option<u64>) -> (r: Option<DurationMicros>)
    ensures
        r.deep_view() == value,
{
    match value {
        Some(n) => Some(DurationMicros::new(n)),
        None => None,
    }
}

impl FileProgressState {
    /// Its place.
    pub fn id(&self) -> (r: JobId)
        ensures
            r@ == self@.id,
    {
        self.id
    }

    /// The file.
    pub fn path(&self) -> (r: &FilePath)
        ensures
            r@ == self@.path,
    {
        &self.path
    }

    /// How far it is.
    pub fn status(&self) -> (r: FileStatus)
        ensures
            r == self@.status,
    {
        self.status
    }

    /// Its duration in microseconds.
    pub fn duration_us(&self) -> (r: Option<u64>)
        ensures
            r == self@.duration_us,
    {
        self.duration_us
    }

    /// How much of it is converted, in microseconds.
    pub fn position_us(&self) -> (r: Option<u64>)
        ensures
            r == self@.position_us,
    {
        self.position_us
    }

    /// The speed in thousandths of the playback speed.
    pub fn speed_milli(&self) -> (r: Option<u32>)
        ensures
            r == self@.speed_milli,
    {
        self.speed_milli
    }

    /// The time that is left.
    pub fn eta(&self) -> (r: Option<DurationMicros>)
        ensures
            r.deep_view() == self@.eta_us,
    {
        as_duration(self.eta_us)
    }
}

/// How far a batch is.
#[derive(Debug, PartialEq, Eq)]
pub struct BatchSnapshot {
    stage: BatchStage,
    total: usize,
    prepared: usize,
    active: usize,
    queued: usize,
    completed: usize,
    progress_milli: Option<u16>,
    eta_us: Option<u64>,
    files: Vec<FileProgressState>,
}

/// How far a batch is.
pub struct SnapshotView {
    /// How far it is.
    pub stage: BatchStage,
    /// How many files there are.
    pub total: usize,
    /// How many are inspected.
    pub prepared: usize,
    /// How many are being worked on.
    pub active: usize,
    /// How many wait.
    pub queued: usize,
    /// How many are over.
    pub completed: usize,
    /// How much is converted, in thousandths.
    pub progress_milli: Option<u16>,
    /// The time that is left in microseconds.
    pub eta_us: Option<u64>,
    /// The files in order.
    pub files: Seq<FileStateView>,
}

impl View for BatchSnapshot {
    type V = SnapshotView;

    closed spec fn view(&self) -> SnapshotView {
        SnapshotView {
            stage: self.stage,
            total: self.total,
            prepared: self.prepared,
            active: self.active,
            queued: self.queued,
            completed: self.completed,
            progress_milli: self.progress_milli,
            eta_us: self.eta_us,
            files: self.files.deep_view(),
        }
    }
}

impl DeepView for BatchSnapshot {
    type V = SnapshotView;

    open spec fn deep_view(&self) -> SnapshotView {
        self@
    }
}

impl Clone for BatchSnapshot {
    fn clone(&self) -> (r: Self)
        ensures
            r@ == self@,
    {
        let r = BatchSnapshot {
            stage: self.stage,
            total: self.total,
            prepared: self.prepared,
            active: self.active,
            queued: self.queued,
            completed: self.completed,
            progress_milli: self.progress_milli,
            eta_us: self.eta_us,
            files: self.files.clone(),
        };
        proof {
            assert(r.files.deep_view() =~= self.files.deep_view());
        }
        r
    }
}

impl BatchSnapshot {
    /// How far it is.
    pub fn stage(&self) -> (r: BatchStage)
        ensures
            r == self@.stage,
    {
        self.stage
    }

    /// How many files there are.
    pub fn total(&self) -> (r: usize)
        ensures
            r == self@.total,
    {
        self.total
    }

    /// How many are inspected.
    pub fn prepared(&self) -> (r: usize)
        ensures
            r == self@.prepared,
    {
        self.prepared
    }

    /// How many are being worked on.
    pub fn active(&self) -> (r: usize)
        ensures
            r == self@.active,
    {
        self.active
    }

    /// How many wait.
    pub fn queued(&self) -> (r: usize)
        ensures
            r == self@.queued,
    {
        self.queued
    }

    /// How many are over.
    pub fn completed(&self) -> (r: usize)
        ensures
            r == self@.completed,
    {
        self.completed
    }

    /// How much is converted, in thousandths.
    pub fn progress_milli(&self) -> (r: Option<u16>)
        ensures
            r == self@.progress_milli,
    {
        self.progress_milli
    }

    /// The time that is left.
    pub fn eta(&self) -> (r: Option<DurationMicros>)
        ensures
            r.deep_view() == self@.eta_us,
    {
        as_duration(self.eta_us)
    }

    /// The files in order.
    pub fn files(&self) -> (r: &Vec<FileProgressState>)
        ensures
            r.deep_view() == self@.files,
    {
        &self.files
    }
}

/// What a batch reports.
#[derive(Debug, PartialEq, Eq)]
pub enum BatchEvent {
    /// The batch was started.
    BatchStarted {
        /// How many files there are.
        total: usize,
        /// The most files at once.
        concurrency: usize,
        /// What a failure means.
        failure_policy: FailurePolicy,
    },
    /// Files are inspected.
    PreparationStarted,
    /// A file is inspected.
    FileStarted {
        /// Its place.
        id: JobId,
        /// The file.
        path: FilePath,
    },
    /// A file was inspected.
    FilePrepared {
        /// Its place.
        id: JobId,
        /// The file.
        path: FilePath,
        /// How far it is.
        status: FileStatus,
    },
    /// Files are converted.
    ExecutionStarted {
        /// How many.
        ready: usize,
    },
    /// A file is being converted.
    FileProgress {
        /// Its place.
        id: JobId,
        /// The file.
        path: FilePath,
        /// The record.
        progress: ProgressSnapshot,
    },
    /// The work on a file is over.
    FileFinished {
        /// Its place.
        id: JobId,
        /// The file.
        path: FilePath,
        /// How it ended.
        status: FileStatus,
    },
    /// The batch is over.
    BatchFinished,
    /// The batch was cancelled.
    BatchCancelled,
}

/// What a batch reports.
pub enum BatchEventView {
    /// The batch was started.
    BatchStarted {
        /// How many files there are.
        total: usize,
        /// The most files at once.
        concurrency: usize,
        /// What a failure means.
        failure_policy: FailurePolicy,
    },
    /// Files are inspected.
    PreparationStarted,
    /// A file is inspected.
    FileStarted {
        /// Its place.
        id: usize,
        /// The file.
        path: Seq<u8>,
    },
    /// A file was inspected.
    FilePrepared {
        /// Its place.
        id: usize,
        /// The file.
        path: Seq<u8>,
        /// How far it is.
        status: FileStatus,
    },
    /// Files are converted.
    ExecutionStarted {
        /// How many.
        ready: usize,
    },
    /// A file is being converted.
    FileProgress {
        /// Its place.
        id: usize,
        /// The file.
        path: Seq<u8>,
        /// The record.
        progress: ProgressSnapshot,
    },
    /// The work on a file is over.
    FileFinished {
        /// Its place.
        id: usize,
        /// The file.
        path: Seq<u8>,
        /// How it ended.
        status: FileStatus,
    },
    /// The batch is over.
    BatchFinished,
    /// The batch was cancelled.
    BatchCancelled,
}

impl View for BatchEvent {
    type V = BatchEventView;

    open spec fn view(&self) -> BatchEventView {
        match self {
            BatchEvent::BatchStarted { total, concurrency, failure_policy } => BatchEventView::BatchStarted {
                total: *total,
                concurrency: *concurrency,
                failure_policy: *failure_policy,
            },
            BatchEvent::PreparationStarted => BatchEventView::PreparationStarted,
            BatchEvent::FileStarted { id, path } => BatchEventView::FileStarted {
                id: id@,
                path: path@,
            },
            BatchEvent::FilePrepared { id, path, status } => BatchEventView::FilePrepared {
                id: id@,
                path: path@,
                status: *status,
            },
            BatchEvent::ExecutionStarted { ready } => BatchEventView::ExecutionStarted {
                ready: *ready,
            },
            BatchEvent::FileProgress { id, path, progress } => BatchEventView::FileProgress {
                id: id@,
                path: path@,
                progress: *progress,
            },
            BatchEvent::FileFinished { id, path, status } => BatchEventView::FileFinished {
                id: id@,
                path: path@,
                status: *status,
            },
            BatchEvent::BatchFinished => BatchEventView::BatchFinished,
            BatchEvent::BatchCancelled => BatchEventView::BatchCancelled,
        }
    }
}

impl DeepView for BatchEvent {
    type V = BatchEventView;

    open spec fn deep_view(&self) -> BatchEventView {
        self@
    }
}

impl Clone for BatchEvent {
    fn clone(&self) -> (r: Self)
        ensures
            r@ == self@,
    {
        match self {
            BatchEvent::BatchStarted { total, concurrency, failure_policy } => BatchEvent::BatchStarted {
                total: *total,
                concurrency: *concurrency,
                failure_policy: *failure_policy,
            },
            BatchEvent::PreparationStarted => BatchEvent::PreparationStarted,
            BatchEvent::FileStarted { id, path } => BatchEvent::FileStarted {
                id: *id,
                path: path.clone(),
            },
            BatchEvent::FilePrepared { id, path, status } => BatchEvent::FilePrepared {
                id: *id,
                path: path.clone(),
                status: *status,
            },
            BatchEvent::ExecutionStarted { ready } => BatchEvent::ExecutionStarted {
                ready: *ready,
            },
            BatchEvent::FileProgress { id, path, progress } => BatchEvent::FileProgress {
                id: *id,
                path: path.clone(),
                progress: *progress,
            },
            BatchEvent::FileFinished { id, path, status } => BatchEvent::FileFinished {
                id: *id,
                path: path.clone(),
                status: *status,
            },
            BatchEvent::BatchFinished => BatchEvent::BatchFinished,
            BatchEvent::BatchCancelled => BatchEvent::BatchCancelled,
        }
    }
}

/// The larger number that fits.
pub open spec fn saturated(n: int) -> int {
    if n > u128::MAX {
        u128::MAX as int
    } else {
        n
    }
}

fn multiply(a: u128, b: u128) -> (r: u128)
    ensures
        r == saturated(a * b),
{
    match a.checked_mul(b) {
        Some(n) => n,
        None => u128::MAX,
    }
}

/// Whether the duration of a file is known.
pub open spec fn has_duration(file: FileStateView) -> bool {
    file.duration_us is Some && file.duration_us->0 > 0
}

/// The duration of a file, where it is known.
pub open spec fn duration_of(file: FileStateView) -> u64 {
    match file.duration_us {
        Some(n) => n,
        None => 0,
    }
}

/// How much of a file is done: all of it once its output was published.
pub open spec fn position_of(file: FileStateView) -> u64 {
    let position = match file.position_us {
        Some(n) => n,
        None => 0,
    };
    if file.status == FileStatus::Succeeded {
        duration_of(file)
    } else if position < duration_of(file) {
        position
    } else {
        duration_of(file)
    }
}

/// The duration of all files that are to be converted.
pub open spec fn total_duration(files: Seq<FileStateView>) -> int
    decreases files.len(),
{
    if files.len() == 0 {
        0
    } else {
        total_duration(files.drop_last()) + if files.last().will_execute {
            duration_of(files.last()) as int
        } else {
            0
        }
    }
}

/// How much of all files that are to be converted is done.
pub open spec fn total_position(files: Seq<FileStateView>) -> int
    decreases files.len(),
{
    if files.len() == 0 {
        0
    } else {
        total_position(files.drop_last()) + if files.last().will_execute {
            position_of(files.last()) as int
        } else {
            0
        }
    }
}

/// Whether there are files to be converted and the duration of each is known.
pub open spec fn is_measurable(files: Seq<FileStateView>) -> bool {
    &&& exists|i: int| 0 <= i < files.len() && (#[trigger] files[i]).will_execute
    &&& forall|i: int|
        0 <= i < files.len() && (#[trigger] files[i]).will_execute ==> has_duration(files[i])
}

/// How much of a batch is done in thousandths, weighted by duration. It is not known unless files
/// are converted and the duration of each is known.
pub open spec fn batch_progress(stage: BatchStage, files: Seq<FileStateView>) -> Option<u16> {
    if stage == BatchStage::Executing && is_measurable(files) {
        let milli = saturated(total_position(files) * 1_000) / total_duration(files);
        if milli > u16::MAX {
            None
        } else if milli > 1_000 {
            Some(1_000)
        } else {
            Some(milli as u16)
        }
    } else {
        None
    }
}

/// The time that a batch still needs in microseconds, from the time that it has taken so far. It is
/// not known before two seconds and two advances.
pub open spec fn batch_eta(
    stage: BatchStage,
    files: Seq<FileStateView>,
    elapsed_us: Option<u128>,
    advancing_samples: usize,
) -> Option<u64> {
    if stage == BatchStage::Executing && is_measurable(files) && elapsed_us is Some
        && advancing_samples >= 2 && elapsed_us->0 >= 2_000_000 && total_position(files) > 0 {
        let remaining = total_duration(files) - total_position(files);
        let eta = saturated(remaining * elapsed_us->0) / total_position(files);
        if eta <= u64::MAX {
            Some(eta as u64)
        } else {
            None
        }
    } else {
        None
    }
}

proof fn lemma_totals(files: Seq<FileStateView>)
    ensures
        0 <= total_position(files) <= total_duration(files),
        total_duration(files) <= files.len() * 0xffff_ffff_ffff_ffff,
    decreases files.len(),
{
    if files.len() > 0 {
        lemma_totals(files.drop_last());
        assert(files.len() * 0xffff_ffff_ffff_ffff == (files.len() - 1) * 0xffff_ffff_ffff_ffff
            + 0xffff_ffff_ffff_ffff) by (nonlinear_arith);
    }
}

proof fn lemma_measurable_total(files: Seq<FileStateView>, i: int)
    requires
        0 <= i < files.len(),
        files[i].will_execute,
        has_duration(files[i]),
    ensures
        total_duration(files) > 0,
    decreases files.len(),
{
    lemma_totals(files.drop_last());
    if i < files.len() - 1 {
        lemma_measurable_total(files.drop_last(), i);
    }
}

/// A class of statuses.
pub enum StatusClass {
    /// Past the preparation.
    Prepared,
    /// Being worked on.
    Active,
    /// Waiting.
    Queued,
    /// Over.
    Completed,
}

/// Whether a status is in a class.
pub open spec fn in_class(status: FileStatus, class: StatusClass) -> bool {
    match class {
        StatusClass::Prepared => status != FileStatus::Queued && status != FileStatus::Preparing,
        StatusClass::Active => status.busy(),
        StatusClass::Queued => status == FileStatus::Queued || status == FileStatus::Ready,
        StatusClass::Completed => status.over(),
    }
}

/// How many files are in a class.
pub open spec fn count_class(files: Seq<FileStateView>, class: StatusClass) -> nat
    decreases files.len(),
{
    if files.len() == 0 {
        0
    } else {
        count_class(files.drop_last(), class) + if in_class(files.last().status, class) {
            1nat
        } else {
            0
        }
    }
}

/// What is known of the progress of a batch.
#[derive(Debug, PartialEq, Eq)]
pub struct MutableState {
    /// How far the batch is.
    pub stage: BatchStage,
    /// The files in order.
    pub files: Vec<FileProgressState>,
    /// How often a file was seen to advance.
    pub advancing_samples: usize,
}

/// The files of a new batch.
pub open spec fn queued_files(requests: Seq<FileRequestView>) -> Seq<FileStateView> {
    Seq::new(
        requests.len(),
        |i: int|
            FileStateView {
                id: i as usize,
                path: requests[i].input,
                status: FileStatus::Queued,
                duration_us: None,
                position_us: None,
                speed_milli: None,
                eta_us: None,
                will_execute: false,
            },
    )
}

/// How far a batch is.
pub open spec fn snapshot_of(
    stage: BatchStage,
    files: Seq<FileStateView>,
    advancing_samples: usize,
    elapsed_us: Option<u128>,
) -> SnapshotView {
    SnapshotView {
        stage,
        total: files.len() as usize,
        prepared: count_class(files, StatusClass::Prepared) as usize,
        active: count_class(files, StatusClass::Active) as usize,
        queued: count_class(files, StatusClass::Queued) as usize,
        completed: count_class(files, StatusClass::Completed) as usize,
        progress_milli: batch_progress(stage, files),
        eta_us: batch_eta(stage, files, elapsed_us, advancing_samples),
        files,
    }
}

/// A number that may not exceed another.
pub open spec fn at_most(value: u64, limit: Option<u64>) -> u64 {
    match limit {
        Some(n) => if value < n {
            value
        } else {
            n
        },
        None => value,
    }
}

/// A file after a progress record.
pub open spec fn progressed(file: FileStateView, progress: ProgressSnapshot) -> FileStateView {
    let position_us = match progress.out_time_us {
        Some(t) => if t >= 0 {
            Some(at_most(t as u64, file.duration_us))
        } else {
            None
        },
        None => None,
    };
    let eta_us = match (file.duration_us, position_us, progress.speed_milli) {
        (Some(duration), Some(position), Some(speed)) => if speed > 0 && position < duration && (
        duration - position) * 1_000 <= u64::MAX {
            Some(((duration - position) * 1_000 / speed as int) as u64)
        } else {
            None
        },
        _ => None,
    };
    FileStateView { position_us, speed_milli: progress.speed_milli, eta_us, ..file }
}

/// Whether a place lies beyond another.
pub open spec fn beyond(position: Option<u64>, previous: Option<u64>) -> bool {
    match (position, previous) {
        (Some(p), Some(q)) => p > q,
        (Some(_), None) => true,
        _ => false,
    }
}

/// How often a file was seen to advance, once more.
pub open spec fn one_more(samples: usize) -> usize {
    if samples < usize::MAX {
        (samples + 1) as usize
    } else {
        samples
    }
}

impl MutableState {
    /// The state of a new batch.
    pub fn new(requests: &Vec<FileRequest>) -> (r: Self)
        ensures
            r.stage == BatchStage::Preparing,
            r.files.deep_view() == queued_files(requests.deep_view()),
            r.advancing_samples == 0,
    {
        let ghost all = requests.deep_view();
        let mut files: Vec<FileProgressState> = Vec::new();
        let mut i: usize = 0;
        proof {
            assert(files.deep_view() =~= queued_files(all.take(0)));
        }
        while i < requests.len()
            invariant
                all == requests.deep_view(),
                i <= requests@.len(),
                files.deep_view() == queued_files(all.take(i as int)),
            decreases requests@.len() - i,
        {
            let ghost before = files.deep_view();
            let file = FileProgressState {
                id: JobId(i),
                path: requests[i].input().clone(),
                status: FileStatus::Queued,
                duration_us: None,
                position_us: None,
                speed_milli: None,
                eta_us: None,
                will_execute: false,
            };
            files.push(file);
            proof {
                assert(all[i as int] == requests@[i as int]@);
                assert(files.deep_view() =~= before.push(file@));
                assert(files.deep_view() =~= queued_files(all.take(i + 1)));
            }
            i = i + 1;
        }
        proof {
            assert(all.take(i as int) =~= all);
        }
        MutableState { stage: BatchStage::Preparing, files, advancing_samples: 0 }
    }

    fn is_measured(&self) -> (r: bool)
        ensures
            r == is_measurable(self.files.deep_view()),
    {
        let ghost all = self.files.deep_view();
        let mut any = false;
        let mut i: usize = 0;
        while i < self.files.len()
            invariant
                all == self.files.deep_view(),
                i <= self.files@.len(),
                any == exists|j: int| 0 <= j < i && (#[trigger] all[j]).will_execute,
                forall|j: int|
                    0 <= j < i && (#[trigger] all[j]).will_execute ==> has_duration(all[j]),
            decreases self.files@.len() - i,
        {
            let file = &self.files[i];
            proof {
                assert(all[i as int] == file@);
            }
            if file.will_execute {
                any = true;
                let known = match file.duration_us {
                    Some(n) => n > 0,
                    None => false,
                };
                if !known {
                    return false;
                }
            }
            i = i + 1;
        }
        proof {
            assert(all.len() == self.files@.len());
        }
        any
    }

    fn totals(&self) -> (r: (u128, u128))
        ensures
            r.0 == total_duration(self.files.deep_view()),
            r.1 == total_position(self.files.deep_view()),
    {
        let ghost all = self.files.deep_view();
        let mut total: u128 = 0;
        let mut position: u128 = 0;
        let mut i: usize = 0;
        while i < self.files.len()
            invariant
                all == self.files.deep_view(),
                i <= self.files@.len(),
                total == total_duration(all.take(i as int)),
                position == total_position(all.take(i as int)),
            decreases self.files@.len() - i,
        {
            let file = &self.files[i];
            proof {
                assert(all[i as int] == file@);
                assert(all.take(i + 1).drop_last() =~= all.take(i as int));
                lemma_totals(all.take(i as int));
                assert(all.take(i as int).len() == i);
                assert(i * 0xffff_ffff_ffff_ffff <= 0xffff_ffff_ffff_ffff * 0xffff_ffff_ffff_ffff)
                    by (nonlinear_arith)
                    requires
                        0 <= i <= 0xffff_ffff_ffff_ffff,
                ;
            }
            if file.will_execute {
                let duration: u64 = match file.duration_us {
                    Some(n) => n,
                    None => 0,
                };
                let reached: u64 = match file.position_us {
                    Some(n) => n,
                    None => 0,
                };
                let done: u64 = match file.status {
                    FileStatus::Succeeded => duration,
                    _ => if reached < duration {
                        reached
                    } else {
                        duration
                    },
                };
                total = total + duration as u128;
                position = position + done as u128;
            }
            i = i + 1;
        }
        proof {
            assert(all.take(i as int) =~= all);
        }
        (total, position)
    }

    fn aggregate_progress(&self, elapsed_us: Option<u128>) -> (r: (Option<u16>, Option<u64>))
        ensures
            r.0 == batch_progress(self.stage, self.files.deep_view()),
            r.1 == batch_eta(
                self.stage,
                self.files.deep_view(),
                elapsed_us,
                self.advancing_samples,
            ),
    {
        let executing = match self.stage {
            BatchStage::Executing => true,
            _ => false,
        };
        if !executing || !self.is_measured() {
            return (None, None);
        }
        let ghost all = self.files.deep_view();
        let (total, position) = self.totals();
        proof {
            let i = choose|i: int| 0 <= i < all.len() && (#[trigger] all[i]).will_execute;
            lemma_measurable_total(all, i);
            lemma_totals(all);
        }
        let milli: u128 = multiply(position, 1_000) / total;
        let progress = if milli > 65_535 {
            None
        } else if milli > 1_000 {
            Some(1_000u16)
        } else {
            Some(milli as u16)
        };
        let eta = match elapsed_us {
            Some(elapsed) => if self.advancing_samples < 2 || elapsed < 2_000_000 || position == 0 {
                None
            } else {
                let remaining: u128 = total - position;
                let left: u128 = multiply(remaining, elapsed) / position;
                if left <= 0xffff_ffff_ffff_ffff {
                    Some(left as u64)
                } else {
                    None
                }
            },
            None => None,
        };
        (progress, eta)
    }

    /// How far the batch is, given for how long files are being converted.
    pub fn snapshot(&self, elapsed_us: Option<u128>) -> (r: BatchSnapshot)
        ensures
            r@ == snapshot_of(
                self.stage,
                self.files.deep_view(),
                self.advancing_samples,
                elapsed_us,
            ),
    {
        let ghost all = self.files.deep_view();
        let mut prepared: usize = 0;
        let mut active: usize = 0;
        let mut queued: usize = 0;
        let mut completed: usize = 0;
        let mut i: usize = 0;
        while i < self.files.len()
            invariant
                all == self.files.deep_view(),
                i <= self.files@.len(),
                prepared <= i,
                active <= i,
                queued <= i,
                completed <= i,
                prepared == count_class(all.take(i as int), StatusClass::Prepared),
                active == count_class(all.take(i as int), StatusClass::Active),
                queued == count_class(all.take(i as int), StatusClass::Queued),
                completed == count_class(all.take(i as int), StatusClass::Completed),
            decreases self.files@.len() - i,
        {
            let status = self.files[i].status;
            proof {
                assert(all[i as int] == self.files@[i as int]@);
                assert(all.take(i + 1).drop_last() =~= all.take(i as int));
            }
            let waiting = match status {
                FileStatus::Queued => true,
                FileStatus::Ready => true,
                _ => false,
            };
            let early = match status {
                FileStatus::Queued => true,
                FileStatus::Preparing => true,
                _ => false,
            };
            if !early {
                prepared = prepared + 1;
            }
            if status.is_busy() {
                active = active + 1;
            }
            if waiting {
                queued = queued + 1;
            }
            if status.is_terminal() {
                completed = completed + 1;
            }
            i = i + 1;
        }
        let (progress_milli, eta_us) = self.aggregate_progress(elapsed_us);
        let files = self.files.clone();
        proof {
            assert(all.take(i as int) =~= all);
            assert(files.deep_view() =~= all);
            assert(all.len() == self.files@.len());
        }
        BatchSnapshot {
            stage: self.stage,
            total: self.files.len(),
            prepared,
            active,
            queued,
            completed,
            progress_milli,
            eta_us,
            files,
        }
    }

    /// Takes a progress record of a file. A file that is not there is passed over.
    pub fn update_progress(&mut self, index: usize, progress: &ProgressSnapshot)
        ensures
            final(self).stage == old(self).stage,
            index >= old(self).files@.len() ==> *final(self) == *old(self),
            index < old(self).files@.len() ==> ({
                let before = old(self).files.deep_view()[index as int];
                let after = progressed(before, *progress);
                &&& final(self).files.deep_view() == old(self).files.deep_view().update(
                    index as int,
                    after,
                )
                &&& final(self).advancing_samples == if beyond(
                    after.position_us,
                    before.position_us,
                ) {
                    one_more(old(self).advancing_samples)
                } else {
                    old(self).advancing_samples
                }
            }),
    {
        if index >= self.files.len() {
            return;
        }
        let ghost all = self.files.deep_view();
        let file = self.files[index].clone();
        proof {
            assert(all[index as int] == self.files@[index as int]@);
        }
        let position_us = match progress.out_time_us {
            Some(t) => if t >= 0 {
                let reached: u64 = t as u64;
                match file.duration_us {
                    Some(n) => Some(
                        if reached < n {
                            reached
                        } else {
                            n
                        },
                    ),
                    None => Some(reached),
                }
            } else {
                None
            },
            None => None,
        };
        let eta_us = match (file.duration_us, position_us, progress.speed_milli) {
            (Some(duration), Some(position), Some(speed)) => if speed > 0 && position < duration {
                match (duration - position).checked_mul(1_000) {
                    Some(scaled) => Some(scaled / speed as u64),
                    None => None,
                }
            } else {
                None
            },
            _ => None,
        };
        let advanced = match (position_us, file.position_us) {
            (Some(p), Some(q)) => p > q,
            (Some(_), None) => true,
            _ => false,
        };
        let next = FileProgressState {
            position_us,
            speed_milli: progress.speed_milli,
            eta_us,
            ..file
        };
        proof {
            assert(next@ == progressed(all[index as int], *progress));
        }
        self.files.set(index, next);
        if advanced {
            self.advancing_samples = self.advancing_samples.saturating_add(1);
        }
        proof {
            assert(self.files.deep_view() =~= all.update(index as int, next@));
        }
    }
}

/// Progress never exceeds the whole, and is the whole once every file that is to be converted was
/// published.
pub proof fn law_progress_is_bounded(files: Seq<FileStateView>)
    requires
        is_measurable(files),
    ensures
        batch_progress(BatchStage::Executing, files) matches Some(milli) ==> milli <= 1_000,
        (forall|i: int|
            0 <= i < files.len() && (#[trigger] files[i]).will_execute ==> files[i].status
                == FileStatus::Succeeded) && total_duration(files) * 1_000 <= u128::MAX
            ==> batch_progress(BatchStage::Executing, files) == Some(1_000u16),
{
    let first = choose|i: int| 0 <= i < files.len() && (#[trigger] files[i]).will_execute;
    lemma_measurable_total(files, first);
    lemma_totals(files);
    let scaled = saturated(total_position(files) * 1_000);
    let whole = total_duration(files);
    assert(scaled / whole >= 0) by (nonlinear_arith)
        requires
            scaled >= 0,
            whole > 0,
    ;
    if forall|i: int|
        0 <= i < files.len() && (#[trigger] files[i]).will_execute ==> files[i].status
            == FileStatus::Succeeded {
        lemma_all_done(files);
        assert((whole * 1_000) / whole == 1_000) by (nonlinear_arith)
            requires
                whole > 0,
        ;
    }
}

proof fn lemma_all_done(files: Seq<FileStateView>)
    requires
        forall|i: int|
            0 <= i < files.len() && (#[trigger] files[i]).will_execute ==> files[i].status
                == FileStatus::Succeeded,
    ensures
        total_position(files) == total_duration(files),
    decreases files.len(),
{
    if files.len() > 0 {
        let before = files.drop_last();
        assert forall|i: int| 0 <= i < before.len() && (#[trigger] before[i]).will_execute implies
            before[i].status == FileStatus::Succeeded by {
            assert(before[i] == files[i]);
        }
        lemma_all_done(before);
        assert(files[files.len() - 1] == files.last());
    }
}

} // verus!
