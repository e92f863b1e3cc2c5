//! The transaction that turns a plan into a published file, one decision at a time.
use vstd::prelude::*;

use crate::backend::{
    BackendError, BackendErrorView, BackendExecution, BackendExecutionView, BackendReport,
    BackendReportView, IoError, IoErrorKind, IoErrorView,
};
use crate::media::{MediaInfo, MediaInfoView};
use crate::number;
use crate::path;
use crate::path::FilePath;
use crate::plan::{JobPlan, JobPlanView};
use crate::text;
use crate::validate;
use crate::validate::{MismatchView, ValidationMismatch, ValidationReport};

verus! {

/// What is known of a published output.
#[derive(Debug, PartialEq, Eq)]
pub struct JobReport {
    output: FilePath,
    backend: BackendReport,
    validation: ValidationReport,
    warnings: Vec<String>,
}

/// What is known of a published output.
pub struct JobReportView {
    /// Where the output is.
    pub output: Seq<u8>,
    /// What the conversion reported.
    pub backend: BackendReportView,
    /// What the comparison with the plan reported.
    pub validation: Seq<Seq<char>>,
    /// What there is to know of the transaction.
    pub warnings: Seq<Seq<char>>,
}

impl View for JobReport {
    type V = JobReportView;

    closed spec fn view(&self) -> JobReportView {
        JobReportView {
            output: self.output@,
            backend: self.backend@,
            validation: self.validation@,
            warnings: self.warnings.deep_view(),
        }
    }
}

impl DeepView for JobReport {
    type V = JobReportView;

    open spec fn deep_view(&self) -> JobReportView {
        self@
    }
}

impl Clone for JobReport {
    fn clone(&self) -> (r: Self)
        ensures
            r@ == self@,
    {
        let r = JobReport {
            output: self.output.clone(),
            backend: self.backend.clone(),
            validation: self.validation.clone(),
            warnings: text::copy_texts(&self.warnings),
        };
        r
    }
}

impl JobReport {
    /// Where the output is.
    pub fn output(&self) -> (r: &FilePath)
        ensures
            r@ == self@.output,
    {
        &self.output
    }

    /// What the conversion reported.
    pub fn backend(&self) -> (r: &BackendReport)
        ensures
            r@ == self@.backend,
    {
        &self.backend
    }

    /// What the comparison with the plan reported.
    pub fn validation(&self) -> (r: &ValidationReport)
        ensures
            r@ == self@.validation,
    {
        &self.validation
    }

    /// What there is to know of the transaction.
    pub fn warnings(&self) -> (r: &Vec<String>)
        ensures
            r.deep_view() == self@.warnings,
    {
        &self.warnings
    }
}

/// Why no output was published.
#[derive(Debug, PartialEq, Eq)]
pub enum ExecutionError {
    /// Cancellation came before or during the work.
    Cancelled,
    /// The output path could not be made absolute.
    ResolveOutput {
        /// What went wrong.
        source: IoError,
    },
    /// There is something at the output path.
    OutputExists {
        /// The output path.
        path: FilePath,
    },
    /// The directory of the output is none.
    InvalidOutputParent {
        /// The path that is no directory.
        path: FilePath,
    },
    /// The output path could not be inspected.
    Preflight {
        /// What went wrong.
        source: IoError,
    },
    /// The private staging file could not be made.
    CreateStaging {
        /// What went wrong.
        source: IoError,
    },
    /// The media backend failed.
    Backend(BackendError),
    /// The tool left no usable file.
    InvalidStagingFile,
    /// The output is not what the plan promised.
    Validation {
        /// Every difference.
        mismatches: Vec<ValidationMismatch>,
        /// How many there are.
        count: usize,
    },
    /// The finished file could not be flushed.
    Sync {
        /// What went wrong.
        source: IoError,
    },
    /// Something appeared at the output path.
    CommitCollision {
        /// The output path.
        path: FilePath,
    },
    /// The file system has no rename that never replaces.
    AtomicCommitUnsupported {
        /// The output path.
        path: FilePath,
    },
    /// The output could not be published.
    Commit {
        /// What went wrong.
        source: IoError,
    },
    /// A file-system task did not finish.
    BlockingTask {
        /// What went wrong.
        message: String,
    },
    /// The staging files could not be removed after another failure.
    Cleanup {
        /// The other failure.
        primary: Box<ExecutionError>,
        /// Why they could not be removed.
        cleanup: IoError,
    },
}

/// Why no output was published.
pub enum ExecutionErrorView {
    /// Cancellation came before or during the work.
    Cancelled,
    /// The output path could not be made absolute.
    ResolveOutput {
        /// What went wrong.
        source: IoErrorView,
    },
    /// There is something at the output path.
    OutputExists {
        /// The output path.
        path: Seq<u8>,
    },
    /// The directory of the output is none.
    InvalidOutputParent {
        /// The path that is no directory.
        path: Seq<u8>,
    },
    /// The output path could not be inspected.
    Preflight {
        /// What went wrong.
        source: IoErrorView,
    },
    /// The private staging file could not be made.
    CreateStaging {
        /// What went wrong.
        source: IoErrorView,
    },
    /// The media backend failed.
    Backend(BackendErrorView),
    /// The tool left no usable file.
    InvalidStagingFile,
    /// The output is not what the plan promised.
    Validation {
        /// Every difference.
        mismatches: Seq<MismatchView>,
        /// How many there are.
        count: usize,
    },
    /// The finished file could not be flushed.
    Sync {
        /// What went wrong.
        source: IoErrorView,
    },
    /// Something appeared at the output path.
    CommitCollision {
        /// The output path.
        path: Seq<u8>,
    },
    /// The file system has no rename that never replaces.
    AtomicCommitUnsupported {
        /// The output path.
        path: Seq<u8>,
    },
    /// The output could not be published.
    Commit {
        /// What went wrong.
        source: IoErrorView,
    },
    /// A file-system task did not finish.
    BlockingTask {
        /// What went wrong.
        message: Seq<char>,
    },
    /// The staging files could not be removed after another failure.
    Cleanup {
        /// The other failure.
        primary: Box<ExecutionErrorView>,
        /// Why they could not be removed.
        cleanup: IoErrorView,
    },
}


/// What is told of a failure.
pub open spec fn error_view(error: ExecutionError) -> ExecutionErrorView
    decreases error,
{
    match error {
        ExecutionError::Cancelled => ExecutionErrorView::Cancelled,
        ExecutionError::ResolveOutput { source } => ExecutionErrorView::ResolveOutput {
            source: source@,
        },
        ExecutionError::OutputExists { path } => ExecutionErrorView::OutputExists {
            path: path@,
        },
        ExecutionError::InvalidOutputParent { path } => ExecutionErrorView::InvalidOutputParent {
            path: path@,
        },
        ExecutionError::Preflight { source } => ExecutionErrorView::Preflight {
            source: source@,
        },
        ExecutionError::CreateStaging { source } => ExecutionErrorView::CreateStaging {
            source: source@,
        },
        ExecutionError::Backend(value) => ExecutionErrorView::Backend(value@),
        ExecutionError::InvalidStagingFile => ExecutionErrorView::InvalidStagingFile,
        ExecutionError::Validation { mismatches, count } => ExecutionErrorView::Validation {
            mismatches: mismatches.deep_view(),
            count: count,
        },
        ExecutionError::Sync { source } => ExecutionErrorView::Sync {
            source: source@,
        },
        ExecutionError::CommitCollision { path } => ExecutionErrorView::CommitCollision {
            path: path@,
        },
        ExecutionError::AtomicCommitUnsupported { path } => ExecutionErrorView::AtomicCommitUnsupported {
            path: path@,
        },
        ExecutionError::Commit { source } => ExecutionErrorView::Commit {
            source: source@,
        },
        ExecutionError::BlockingTask { message } => ExecutionErrorView::BlockingTask {
            message: message@,
        },
        ExecutionError::Cleanup { primary, cleanup } => ExecutionErrorView::Cleanup {
            primary: Box::new(error_view(*primary)),
            cleanup: cleanup@,
        },
    }
}

impl View for ExecutionError {
    type V = ExecutionErrorView;

    open spec fn view(&self) -> ExecutionErrorView {
        error_view(*self)
    }
}

impl DeepView for ExecutionError {
    type V = ExecutionErrorView;

    open spec fn deep_view(&self) -> ExecutionErrorView {
        self@
    }
}

impl Clone for ExecutionError {
    fn clone(&self) -> (r: Self)
        ensures
            r@ == self@,
        decreases self,
    {
        match self {
            ExecutionError::Cancelled => ExecutionError::Cancelled,
            ExecutionError::ResolveOutput { source } => ExecutionError::ResolveOutput {
                source: source.clone(),
            },
            ExecutionError::OutputExists { path } => ExecutionError::OutputExists {
                path: path.clone(),
            },
            ExecutionError::InvalidOutputParent { path } => ExecutionError::InvalidOutputParent {
                path: path.clone(),
            },
            ExecutionError::Preflight { source } => ExecutionError::Preflight {
                source: source.clone(),
            },
            ExecutionError::CreateStaging { source } => ExecutionError::CreateStaging {
                source: source.clone(),
            },
            ExecutionError::Backend(value) => ExecutionError::Backend(value.clone()),
            ExecutionError::InvalidStagingFile => ExecutionError::InvalidStagingFile,
            ExecutionError::Validation { mismatches, count } => {
                let copy = mismatches.clone();
                proof {
                    assert(copy.deep_view() =~= mismatches.deep_view());
                }
                ExecutionError::Validation { mismatches: copy, count: *count }
            },
            ExecutionError::Sync { source } => ExecutionError::Sync {
                source: source.clone(),
            },
            ExecutionError::CommitCollision { path } => ExecutionError::CommitCollision {
                path: path.clone(),
            },
            ExecutionError::AtomicCommitUnsupported { path } => ExecutionError::AtomicCommitUnsupported {
                path: path.clone(),
            },
            ExecutionError::Commit { source } => ExecutionError::Commit {
                source: source.clone(),
            },
            ExecutionError::BlockingTask { message } => ExecutionError::BlockingTask {
                message: message.clone(),
            },
            ExecutionError::Cleanup { primary, cleanup } => ExecutionError::Cleanup {
                primary: Box::new((&**primary).clone()),
                cleanup: cleanup.clone(),
            },
        }
    }
}

impl ExecutionErrorView {
    /// The user-facing description.
    pub open spec fn message(self) -> Seq<char>
        decreases self,
    {
        match self {
            ExecutionErrorView::Cancelled => "media execution cancelled"@,
            ExecutionErrorView::ResolveOutput { source } => "failed to resolve output path: "@ + source.message,
            ExecutionErrorView::OutputExists { path } => "output already exists: "@ + text::lossy(path),
            ExecutionErrorView::InvalidOutputParent { path } => "output parent is not an existing directory: "@ + text::lossy(path),
            ExecutionErrorView::Preflight { source } => "failed to inspect output path: "@ + source.message,
            ExecutionErrorView::CreateStaging { source } => "failed to create private staging output: "@ + source.message,
            ExecutionErrorView::Backend(value) => value.message(),
            ExecutionErrorView::InvalidStagingFile => "FFmpeg staging output is not a non-empty regular file"@,
            ExecutionErrorView::Validation { mismatches: _, count } => "output validation failed with "@ + number::decimal(count as int) + " mismatch(es)"@,
            ExecutionErrorView::Sync { source } => "failed to synchronize staging output: "@ + source.message,
            ExecutionErrorView::CommitCollision { path } => "output appeared before atomic commit: "@ + text::lossy(path),
            ExecutionErrorView::AtomicCommitUnsupported { path } => "filesystem does not support atomic non-replacing rename for "@ + text::lossy(path),
            ExecutionErrorView::Commit { source } => "failed to atomically publish output: "@ + source.message,
            ExecutionErrorView::BlockingTask { message } => "filesystem task failed: "@ + message,
            ExecutionErrorView::Cleanup { primary, cleanup } => primary.message() + "; staging cleanup also failed: "@ + cleanup.message,
        }
    }
}

impl ExecutionError {
    /// The user-facing description.
    pub fn message(&self) -> (r: String)
        ensures
            r@ == self@.message(),
        decreases self,
    {
        match self {
            ExecutionError::Cancelled => "media execution cancelled".to_owned(),
            ExecutionError::ResolveOutput { source } => text::concat2("failed to resolve output path: ", source.message()),
            ExecutionError::OutputExists { path } => text::concat2("output already exists: ", path.display().as_str()),
            ExecutionError::InvalidOutputParent { path } => text::concat2("output parent is not an existing directory: ", path.display().as_str()),
            ExecutionError::Preflight { source } => text::concat2("failed to inspect output path: ", source.message()),
            ExecutionError::CreateStaging { source } => text::concat2("failed to create private staging output: ", source.message()),
            ExecutionError::Backend(value) => value.message(),
            ExecutionError::InvalidStagingFile => "FFmpeg staging output is not a non-empty regular file".to_owned(),
            ExecutionError::Validation { mismatches: _, count } => text::concat3("output validation failed with ", number::show_usize(*count).as_str(), " mismatch(es)"),
            ExecutionError::Sync { source } => text::concat2("failed to synchronize staging output: ", source.message()),
            ExecutionError::CommitCollision { path } => text::concat2("output appeared before atomic commit: ", path.display().as_str()),
            ExecutionError::AtomicCommitUnsupported { path } => text::concat2("filesystem does not support atomic non-replacing rename for ", path.display().as_str()),
            ExecutionError::Commit { source } => text::concat2("failed to atomically publish output: ", source.message()),
            ExecutionError::BlockingTask { message } => text::concat2("filesystem task failed: ", message.as_str()),
            ExecutionError::Cleanup { primary, cleanup } => text::concat3(primary.message().as_str(), "; staging cleanup also failed: ", cleanup.message()),
        }
    }
}

impl ExecutionError {
    /// The differences, where the output was not as promised.
    pub fn validation_mismatches(&self) -> (r: Option<&Vec<ValidationMismatch>>)
        ensures
            match r {
                Some(list) => (self@ matches ExecutionErrorView::Validation { mismatches, .. }
                    && list.deep_view() == mismatches),
                None => !(self@ is Validation),
            },
    {
        match self {
            ExecutionError::Validation { mismatches, .. } => Some(mismatches),
            _ => None,
        }
    }
}

/// The failure for a file that is not as promised.
pub open spec fn validation_error(mismatches: Seq<MismatchView>) -> ExecutionErrorView {
    ExecutionErrorView::Validation { mismatches, count: mismatches.len() as usize }
}

/// Compares a probed file with what its plan promised. It succeeds exactly where there is no
/// difference, and the error holds every difference in order.
pub fn validate_output(plan: &JobPlan, actual: &MediaInfo) -> (r: Result<
    ValidationReport,
    ExecutionError,
>)
    ensures
        match r {
            Ok(report) => validate::all_mismatches(plan@, actual@).len() == 0 && report@ == Seq::<
                Seq<char>,
            >::empty(),
            Err(error) => validate::all_mismatches(plan@, actual@).len() > 0 && error@
                == validation_error(validate::all_mismatches(plan@, actual@)),
        },
{
    match validate::compare_output(plan, actual) {
        Ok(report) => {
            proof {
                assert(report@ =~= Seq::<Seq<char>>::empty());
            }
            Ok(report)
        },
        Err(mismatches) => {
            let count: usize = mismatches.len();
            proof {
                assert(mismatches.deep_view().len() == count);
            }
            Err(ExecutionError::Validation { mismatches, count })
        },
    }
}

/// What is known of a file-system entry without following it.
#[derive(Debug, Clone, Copy, PartialEq, Eq)]
pub struct EntryFacts {
    /// Whether it is a symbolic link.
    pub symlink: bool,
    /// Whether it is a regular file.
    pub file: bool,
    /// Its length in bytes.
    pub length: u64,
}

impl EntryFacts {
    /// Whether a tool can have written its output there: a regular file that holds something.
    pub open spec fn usable(self) -> bool {
        !self.symlink && self.file && self.length > 0
    }
}

/// Whether a staging entry, or the failure to inspect it, stands for a usable file.
pub fn validate_staging_file(entry: &Result<EntryFacts, IoError>) -> (r: Result<(), ExecutionError>)
    ensures
        match r {
            Ok(_) => entry is Ok && entry->Ok_0.usable(),
            Err(e) => e@ is InvalidStagingFile && !(entry is Ok && entry->Ok_0.usable()),
        },
{
    match entry {
        Ok(facts) => if facts.symlink || !facts.file || facts.length == 0 {
            Err(ExecutionError::InvalidStagingFile)
        } else {
            Ok(())
        },
        Err(_) => Err(ExecutionError::InvalidStagingFile),
    }
}

/// The failure that is reported after staging files were to be removed.
pub open spec fn after_cleanup(
    primary: ExecutionErrorView,
    outcome: Result<(), IoErrorView>,
) -> ExecutionErrorView {
    match outcome {
        Ok(_) => primary,
        Err(cleanup) => ExecutionErrorView::Cleanup { primary: Box::new(primary), cleanup },
    }
}

/// What is told of an outcome.
pub open spec fn outcome_view(outcome: Result<(), IoError>) -> Result<(), IoErrorView> {
    match outcome {
        Ok(_) => Ok(()),
        Err(e) => Err(e@),
    }
}

/// The failure that is reported after staging files were to be removed.
pub fn cleanup_or(primary: ExecutionError, outcome: Result<(), IoError>) -> (r: ExecutionError)
    ensures
        r@ == after_cleanup(primary@, outcome_view(outcome)),
{
    match outcome {
        Ok(_) => primary,
        Err(cleanup) => ExecutionError::Cleanup { primary: Box::new(primary), cleanup },
    }
}

/// Why a file could not be published.
pub open spec fn commit_error(source: IoErrorView, output: Seq<u8>) -> ExecutionErrorView {
    match source.kind {
        IoErrorKind::AlreadyExists => ExecutionErrorView::CommitCollision { path: output },
        IoErrorKind::Unsupported => ExecutionErrorView::AtomicCommitUnsupported { path: output },
        _ => ExecutionErrorView::Commit { source },
    }
}

fn commit_failure(source: IoError, output: FilePath) -> (r: ExecutionError)
    ensures
        r@ == commit_error(source@, output@),
{
    match source.kind() {
        IoErrorKind::AlreadyExists => ExecutionError::CommitCollision { path: output },
        IoErrorKind::Unsupported => ExecutionError::AtomicCommitUnsupported { path: output },
        _ => ExecutionError::Commit { source },
    }
}

/// Why a conversion or a probe failed, as the transaction reports it.
pub open spec fn backend_failure(error: BackendErrorView) -> ExecutionErrorView {
    match error {
        BackendErrorView::Cancelled => ExecutionErrorView::Cancelled,
        other => ExecutionErrorView::Backend(other),
    }
}

fn from_backend(error: BackendError) -> (r: ExecutionError)
    ensures
        r@ == backend_failure(error@),
{
    match error {
        BackendError::Cancelled => ExecutionError::Cancelled,
        other => ExecutionError::Backend(other),
    }
}

/// The failure of a task that did not finish.
fn blocking_task_error(message: String) -> (r: ExecutionError)
    ensures
        r@ == (ExecutionErrorView::BlockingTask { message: message@ }),
{
    ExecutionError::BlockingTask { message }
}

/// What a transaction waits for, with what it holds.
#[derive(Debug, PartialEq, Eq)]
pub enum Stage {
    /// The current directory.
    Resolve,
    /// What is at the output path.
    CheckOutput {
        /// The output path.
        output: FilePath,
    },
    /// What is at the directory of the output.
    CheckParent {
        /// The output path.
        output: FilePath,
        /// Its directory.
        parent: FilePath,
    },
    /// A private staging file.
    CreateStaging {
        /// The output path.
        output: FilePath,
    },
    /// The conversion.
    Execute {
        /// The output path.
        output: FilePath,
        /// The staging file.
        staging: FilePath,
    },
    /// What the conversion left.
    CheckStaging {
        /// The output path.
        output: FilePath,
        /// The staging file.
        staging: FilePath,
        /// What the conversion reported.
        report: BackendReport,
    },
    /// What a probe tells of the staging file.
    Probe {
        /// The output path.
        output: FilePath,
        /// The staging file.
        staging: FilePath,
        /// What the conversion reported.
        report: BackendReport,
    },
    /// The staging file to be flushed.
    Sync {
        /// The output path.
        output: FilePath,
        /// The staging file.
        staging: FilePath,
        /// What the conversion reported.
        report: BackendReport,
    },
    /// The staging file to be renamed.
    Commit {
        /// The output path.
        output: FilePath,
        /// What the conversion reported.
        report: BackendReport,
    },
    /// The staging directory to be removed.
    Finish {
        /// The output path.
        output: FilePath,
        /// What the conversion reported.
        report: BackendReport,
    },
    /// The staging files to be removed after a failure.
    Cleanup {
        /// The failure.
        primary: ExecutionError,
    },
    /// Nothing any more.
    Done,
}

/// What a transaction waits for, with what it holds.
pub enum StageView {
    /// The current directory.
    Resolve,
    /// What is at the output path.
    CheckOutput {
        /// The output path.
        output: Seq<u8>,
    },
    /// What is at the directory of the output.
    CheckParent {
        /// The output path.
        output: Seq<u8>,
        /// Its directory.
        parent: Seq<u8>,
    },
    /// A private staging file.
    CreateStaging {
        /// The output path.
        output: Seq<u8>,
    },
    /// The conversion.
    Execute {
        /// The output path.
        output: Seq<u8>,
        /// The staging file.
        staging: Seq<u8>,
    },
    /// What the conversion left.
    CheckStaging {
        /// The output path.
        output: Seq<u8>,
        /// The staging file.
        staging: Seq<u8>,
        /// What the conversion reported.
        report: BackendReportView,
    },
    /// What a probe tells of the staging file.
    Probe {
        /// The output path.
        output: Seq<u8>,
        /// The staging file.
        staging: Seq<u8>,
        /// What the conversion reported.
        report: BackendReportView,
    },
    /// The staging file to be flushed.
    Sync {
        /// The output path.
        output: Seq<u8>,
        /// The staging file.
        staging: Seq<u8>,
        /// What the conversion reported.
        report: BackendReportView,
    },
    /// The staging file to be renamed.
    Commit {
        /// The output path.
        output: Seq<u8>,
        /// What the conversion reported.
        report: BackendReportView,
    },
    /// The staging directory to be removed.
    Finish {
        /// The output path.
        output: Seq<u8>,
        /// What the conversion reported.
        report: BackendReportView,
    },
    /// The staging files to be removed after a failure.
    Cleanup {
        /// The failure.
        primary: ExecutionErrorView,
    },
    /// Nothing any more.
    Done,
}

impl View for Stage {
    type V = StageView;

    open spec fn view(&self) -> StageView {
        match self {
            Stage::Resolve => StageView::Resolve,
            Stage::CheckOutput { output } => StageView::CheckOutput {
                output: output@,
            },
            Stage::CheckParent { output, parent } => StageView::CheckParent {
                output: output@,
                parent: parent@,
            },
            Stage::CreateStaging { output } => StageView::CreateStaging {
                output: output@,
            },
            Stage::Execute { output, staging } => StageView::Execute {
                output: output@,
                staging: staging@,
            },
            Stage::CheckStaging { output, staging, report } => StageView::CheckStaging {
                output: output@,
                staging: staging@,
                report: report@,
            },
            Stage::Probe { output, staging, report } => StageView::Probe {
                output: output@,
                staging: staging@,
                report: report@,
            },
            Stage::Sync { output, staging, report } => StageView::Sync {
                output: output@,
                staging: staging@,
                report: report@,
            },
            Stage::Commit { output, report } => StageView::Commit {
                output: output@,
                report: report@,
            },
            Stage::Finish { output, report } => StageView::Finish {
                output: output@,
                report: report@,
            },
            Stage::Cleanup { primary } => StageView::Cleanup {
                primary: primary@,
            },
            Stage::Done => StageView::Done,
        }
    }
}

impl DeepView for Stage {
    type V = StageView;

    open spec fn deep_view(&self) -> StageView {
        self@
    }
}

/// What is to be done next.
#[derive(Debug, PartialEq, Eq)]
pub enum Action {
    /// Tell the current directory.
    ReadCurrentDirectory,
    /// Tell what is at this path, without following it.
    InspectOutput(FilePath),
    /// Tell whether this is a directory.
    InspectParent(FilePath),
    /// Make a private directory here and an empty file in it.
    CreateStaging(FilePath),
    /// Convert into the staging file.
    Execute(BackendExecution),
    /// Tell what is at this path, without following it.
    InspectStaging(FilePath),
    /// Probe this file.
    Probe(FilePath),
    /// Flush this file.
    Sync(FilePath),
    /// Rename without ever replacing.
    Commit {
        /// The staging file.
        from: FilePath,
        /// The output path.
        to: FilePath,
    },
    /// Remove the empty staging directory.
    RemoveDirectory,
    /// Remove the staging file and its directory.
    CleanUp,
    /// Go on waiting.
    Wait,
    /// Report this.
    Finish(Result<JobReport, ExecutionError>),
}

/// What is to be done next.
pub enum ActionView {
    /// Tell the current directory.
    ReadCurrentDirectory,
    /// Tell what is at this path, without following it.
    InspectOutput(Seq<u8>),
    /// Tell whether this is a directory.
    InspectParent(Seq<u8>),
    /// Make a private directory here and an empty file in it.
    CreateStaging(Seq<u8>),
    /// Convert into the staging file.
    Execute(BackendExecutionView),
    /// Tell what is at this path, without following it.
    InspectStaging(Seq<u8>),
    /// Probe this file.
    Probe(Seq<u8>),
    /// Flush this file.
    Sync(Seq<u8>),
    /// Rename without ever replacing.
    Commit {
        /// The staging file.
        from: Seq<u8>,
        /// The output path.
        to: Seq<u8>,
    },
    /// Remove the empty staging directory.
    RemoveDirectory,
    /// Remove the staging file and its directory.
    CleanUp,
    /// Go on waiting.
    Wait,
    /// Report this.
    Finish(Result<JobReportView, ExecutionErrorView>),
}

impl View for Action {
    type V = ActionView;

    open spec fn view(&self) -> ActionView {
        match self {
            Action::ReadCurrentDirectory => ActionView::ReadCurrentDirectory,
            Action::InspectOutput(value) => ActionView::InspectOutput(value@),
            Action::InspectParent(value) => ActionView::InspectParent(value@),
            Action::CreateStaging(value) => ActionView::CreateStaging(value@),
            Action::Execute(value) => ActionView::Execute(value@),
            Action::InspectStaging(value) => ActionView::InspectStaging(value@),
            Action::Probe(value) => ActionView::Probe(value@),
            Action::Sync(value) => ActionView::Sync(value@),
            Action::Commit { from, to } => ActionView::Commit {
                from: from@,
                to: to@,
            },
            Action::RemoveDirectory => ActionView::RemoveDirectory,
            Action::CleanUp => ActionView::CleanUp,
            Action::Wait => ActionView::Wait,
            Action::Finish(Ok(report)) => ActionView::Finish(Ok(report@)),
            Action::Finish(Err(error)) => ActionView::Finish(Err(error@)),
        }
    }
}

impl DeepView for Action {
    type V = ActionView;

    open spec fn deep_view(&self) -> ActionView {
        self@
    }
}

/// What came of an action.
#[derive(Debug, PartialEq, Eq)]
pub enum Event {
    /// The current directory.
    CurrentDirectory(Result<FilePath, IoError>),
    /// Whether there is something at the output path.
    OutputEntry(Result<(), IoError>),
    /// Whether the directory of the output is one.
    ParentEntry(Result<bool, IoError>),
    /// The staging file.
    StagingCreated(Result<FilePath, IoError>),
    /// What the conversion reported.
    Executed(Result<BackendReport, BackendError>),
    /// What the conversion left.
    StagingEntry(Result<EntryFacts, IoError>),
    /// What a probe tells of the staging file.
    Probed(Result<MediaInfo, BackendError>),
    /// Whether the staging file was flushed.
    Synced(Result<(), IoError>),
    /// Whether the staging file was renamed.
    Committed(Result<(), IoError>),
    /// Whether the staging directory was removed.
    DirectoryRemoved(Result<(), IoError>),
    /// Whether the staging files were removed.
    CleanedUp(Result<(), IoError>),
    /// The task did not finish.
    TaskFailed(String),
}

/// What came of an action.
pub enum EventView {
    /// The current directory.
    CurrentDirectory(Result<Seq<u8>, IoErrorView>),
    /// Whether there is something at the output path.
    OutputEntry(Result<(), IoErrorView>),
    /// Whether the directory of the output is one.
    ParentEntry(Result<bool, IoErrorView>),
    /// The staging file.
    StagingCreated(Result<Seq<u8>, IoErrorView>),
    /// What the conversion reported.
    Executed(Result<BackendReportView, BackendErrorView>),
    /// What the conversion left.
    StagingEntry(Result<EntryFacts, IoErrorView>),
    /// What a probe tells of the staging file.
    Probed(Result<MediaInfoView, BackendErrorView>),
    /// Whether the staging file was flushed.
    Synced(Result<(), IoErrorView>),
    /// Whether the staging file was renamed.
    Committed(Result<(), IoErrorView>),
    /// Whether the staging directory was removed.
    DirectoryRemoved(Result<(), IoErrorView>),
    /// Whether the staging files were removed.
    CleanedUp(Result<(), IoErrorView>),
    /// The task did not finish.
    TaskFailed(Seq<char>),
}

impl View for Event {
    type V = EventView;

    open spec fn view(&self) -> EventView {
        match *self {
            Event::CurrentDirectory(Ok(value)) => EventView::CurrentDirectory(Ok(value@)),
            Event::CurrentDirectory(Err(error)) => EventView::CurrentDirectory(Err(error@)),
            Event::OutputEntry(Ok(value)) => EventView::OutputEntry(Ok(value)),
            Event::OutputEntry(Err(error)) => EventView::OutputEntry(Err(error@)),
            Event::ParentEntry(Ok(value)) => EventView::ParentEntry(Ok(value)),
            Event::ParentEntry(Err(error)) => EventView::ParentEntry(Err(error@)),
            Event::StagingCreated(Ok(value)) => EventView::StagingCreated(Ok(value@)),
            Event::StagingCreated(Err(error)) => EventView::StagingCreated(Err(error@)),
            Event::Executed(Ok(value)) => EventView::Executed(Ok(value@)),
            Event::Executed(Err(error)) => EventView::Executed(Err(error@)),
            Event::StagingEntry(Ok(value)) => EventView::StagingEntry(Ok(value)),
            Event::StagingEntry(Err(error)) => EventView::StagingEntry(Err(error@)),
            Event::Probed(Ok(value)) => EventView::Probed(Ok(value@)),
            Event::Probed(Err(error)) => EventView::Probed(Err(error@)),
            Event::Synced(Ok(value)) => EventView::Synced(Ok(value)),
            Event::Synced(Err(error)) => EventView::Synced(Err(error@)),
            Event::Committed(Ok(value)) => EventView::Committed(Ok(value)),
            Event::Committed(Err(error)) => EventView::Committed(Err(error@)),
            Event::DirectoryRemoved(Ok(value)) => EventView::DirectoryRemoved(Ok(value)),
            Event::DirectoryRemoved(Err(error)) => EventView::DirectoryRemoved(Err(error@)),
            Event::CleanedUp(Ok(value)) => EventView::CleanedUp(Ok(value)),
            Event::CleanedUp(Err(error)) => EventView::CleanedUp(Err(error@)),
            Event::TaskFailed(message) => EventView::TaskFailed(message@),
        }
    }
}

/// The end of a transaction.
pub open spec fn done(result: Result<JobReportView, ExecutionErrorView>) -> (StageView, ActionView) {
    (StageView::Done, ActionView::Finish(result))
}

/// A failure once there are staging files.
pub open spec fn cleanup(primary: ExecutionErrorView) -> (StageView, ActionView) {
    (StageView::Cleanup { primary }, ActionView::CleanUp)
}

/// A failure of a task that did not finish.
pub open spec fn task_failed(message: Seq<char>) -> (StageView, ActionView) {
    done(Err(ExecutionErrorView::BlockingTask { message }))
}

/// How a transaction begins.
pub open spec fn begun(job: JobPlanView, cancelled: bool) -> (StageView, ActionView) {
    if cancelled {
        done(Err(ExecutionErrorView::Cancelled))
    } else if path::is_rooted(job.output) {
        (StageView::CheckOutput { output: job.output }, ActionView::InspectOutput(job.output))
    } else {
        (StageView::Resolve, ActionView::ReadCurrentDirectory)
    }
}

/// What is reported where the staging directory stays behind.
pub open spec fn leftover_warning(message: Seq<char>) -> Seq<char> {
    "committed output but could not remove staging directory: "@ + message
}

/// What is reported of a published output.
pub open spec fn published(
    output: Seq<u8>,
    report: BackendReportView,
    warnings: Seq<Seq<char>>,
) -> JobReportView {
    JobReportView { output, backend: report, validation: seq![], warnings }
}

/// How a transaction goes on. An event that it does not wait for changes nothing.
pub open spec fn step(job: JobPlanView, stage: StageView, event: EventView) -> (
    StageView,
    ActionView,
) {
    match (stage, event) {
        (StageView::Resolve, EventView::CurrentDirectory(Ok(directory))) => {
            let output = path::join(directory, job.output);
            (StageView::CheckOutput { output }, ActionView::InspectOutput(output))
        },
        (StageView::Resolve, EventView::CurrentDirectory(Err(source))) => done(
            Err(ExecutionErrorView::ResolveOutput { source }),
        ),
        (StageView::CheckOutput { output }, EventView::OutputEntry(Ok(_))) => done(
            Err(ExecutionErrorView::OutputExists { path: output }),
        ),
        (StageView::CheckOutput { output }, EventView::OutputEntry(Err(source))) => if source.kind
            == IoErrorKind::NotFound {
            match path::parent(output) {
                Some(parent) => (
                    StageView::CheckParent { output, parent },
                    ActionView::InspectParent(parent),
                ),
                None => done(Err(ExecutionErrorView::InvalidOutputParent { path: output })),
            }
        } else {
            done(Err(ExecutionErrorView::Preflight { source }))
        },
        (StageView::CheckParent { output, parent }, EventView::ParentEntry(Ok(directory))) =>
            if directory {
                (StageView::CreateStaging { output }, ActionView::CreateStaging(parent))
            } else {
                done(Err(ExecutionErrorView::InvalidOutputParent { path: parent }))
            },
        (StageView::CheckParent { output, parent }, EventView::ParentEntry(Err(source))) =>
            if source.kind == IoErrorKind::NotFound {
                done(Err(ExecutionErrorView::InvalidOutputParent { path: parent }))
            } else {
                done(Err(ExecutionErrorView::Preflight { source }))
            },
        (StageView::CreateStaging { output }, EventView::StagingCreated(Ok(staging))) => (
            StageView::Execute { output, staging },
            ActionView::Execute(BackendExecutionView { plan: job, staging_path: staging }),
        ),
        (StageView::CreateStaging { output }, EventView::StagingCreated(Err(source))) => done(
            Err(ExecutionErrorView::CreateStaging { source }),
        ),
        (StageView::Execute { output, staging }, EventView::Executed(Ok(report))) => (
            StageView::CheckStaging { output, staging, report },
            ActionView::InspectStaging(staging),
        ),
        (StageView::Execute { output, staging }, EventView::Executed(Err(error))) => cleanup(
            backend_failure(error),
        ),
        (StageView::CheckStaging { output, staging, report }, EventView::StagingEntry(entry)) =>
            if entry is Ok && entry->Ok_0.usable() {
                (StageView::Probe { output, staging, report }, ActionView::Probe(staging))
            } else {
                cleanup(ExecutionErrorView::InvalidStagingFile)
            },
        (StageView::Probe { output, staging, report }, EventView::Probed(Ok(media))) => {
            let mismatches = validate::all_mismatches(job, media);
            if mismatches.len() == 0 {
                (StageView::Sync { output, staging, report }, ActionView::Sync(staging))
            } else {
                cleanup(validation_error(mismatches))
            }
        },
        (StageView::Probe { output, staging, report }, EventView::Probed(Err(error))) => cleanup(
            backend_failure(error),
        ),
        (StageView::Sync { output, staging, report }, EventView::Synced(Ok(_))) => (
            StageView::Commit { output, report },
            ActionView::Commit { from: staging, to: output },
        ),
        (StageView::Sync { output, staging, report }, EventView::Synced(Err(source))) => cleanup(
            ExecutionErrorView::Sync { source },
        ),
        (StageView::Commit { output, report }, EventView::Committed(Ok(_))) => (
            StageView::Finish { output, report },
            ActionView::RemoveDirectory,
        ),
        (StageView::Commit { output, report }, EventView::Committed(Err(source))) => cleanup(
            commit_error(source, output),
        ),
        (StageView::Finish { output, report }, EventView::DirectoryRemoved(Ok(_))) => done(
            Ok(published(output, report, seq![])),
        ),
        (StageView::Finish { output, report }, EventView::DirectoryRemoved(Err(source))) => done(
            Ok(published(output, report, seq![leftover_warning(source.message)])),
        ),
        (StageView::Cleanup { primary }, EventView::CleanedUp(outcome)) => done(
            Err(after_cleanup(primary, outcome)),
        ),
        (StageView::Cleanup { primary }, EventView::TaskFailed(message)) => done(
            Err(
                after_cleanup(
                    primary,
                    Err(
                        IoErrorView {
                            kind: IoErrorKind::Other,
                            message: "cleanup task failed: filesystem task failed: "@ + message,
                        },
                    ),
                ),
            ),
        ),
        (StageView::CheckStaging { .. }, EventView::TaskFailed(_)) => cleanup(
            ExecutionErrorView::InvalidStagingFile,
        ),
        (StageView::Sync { .. }, EventView::TaskFailed(message)) => cleanup(
            ExecutionErrorView::Sync { source: IoErrorView { kind: IoErrorKind::Other, message } },
        ),
        (StageView::Resolve, EventView::TaskFailed(message)) => task_failed(message),
        (StageView::CheckOutput { .. }, EventView::TaskFailed(message)) => task_failed(message),
        (StageView::CheckParent { .. }, EventView::TaskFailed(message)) => task_failed(message),
        (StageView::CreateStaging { .. }, EventView::TaskFailed(message)) => task_failed(message),
        (StageView::Commit { .. }, EventView::TaskFailed(message)) => cleanup(
            ExecutionErrorView::BlockingTask { message },
        ),
        (StageView::Finish { .. }, EventView::TaskFailed(message)) => task_failed(message),
        (other, _) => (other, ActionView::Wait),
    }
}

/// A plan on its way from staging over comparison to publication.
#[derive(Debug, PartialEq, Eq)]
pub struct Transaction {
    plan: JobPlan,
    stage: Stage,
}

/// A plan on its way from staging over comparison to publication.
pub struct TransactionView {
    /// What is to be done.
    pub plan: JobPlanView,
    /// What is waited for.
    pub stage: StageView,
}

impl View for Transaction {
    type V = TransactionView;

    closed spec fn view(&self) -> TransactionView {
        TransactionView { plan: self.plan@, stage: self.stage@ }
    }
}

impl Transaction {
    /// Begins a transaction and tells what to do first.
    pub fn start(plan: JobPlan, cancelled: bool) -> (r: (Transaction, Action))
        ensures
            r.0@.plan == plan@,
            (r.0@.stage, r.1@) == begun(plan@, cancelled),
    {
        if cancelled {
            return (
                Transaction { plan, stage: Stage::Done },
                Action::Finish(Err(ExecutionError::Cancelled)),
            );
        }
        if plan.output().is_absolute() {
            let output = plan.output().clone();
            let first = Action::InspectOutput(output.clone());
            return (Transaction { plan, stage: Stage::CheckOutput { output } }, first);
        }
        (Transaction { plan, stage: Stage::Resolve }, Action::ReadCurrentDirectory)
    }

    /// Takes what came of the last action and tells what to do next.
    pub fn advance(self, event: Event) -> (r: (Transaction, Action))
        ensures
            r.0@.plan == self@.plan,
            (r.0@.stage, r.1@) == step(self@.plan, self@.stage, event@),
    {
        let Transaction { plan, stage } = self;
        let (stage, action) = next_stage(&plan, stage, event);
        (Transaction { plan, stage }, action)
    }
}

fn finish(error: ExecutionError) -> (r: (Stage, Action))
    ensures
        (r.0@, r.1@) == done(Err(error@)),
{
    (Stage::Done, Action::Finish(Err(error)))
}

fn fail(primary: ExecutionError) -> (r: (Stage, Action))
    ensures
        (r.0@, r.1@) == cleanup(primary@),
{
    (Stage::Cleanup { primary }, Action::CleanUp)
}

fn publish(output: FilePath, report: BackendReport, warnings: Vec<String>) -> (r: (Stage, Action))
    ensures
        (r.0@, r.1@) == done(Ok(published(output@, report@, warnings.deep_view()))),
{
    let validation = ValidationReport::default();
    let report = JobReport { output, backend: report, validation, warnings };
    proof {
        assert(validation@ =~= seq![]);
    }
    (Stage::Done, Action::Finish(Ok(report)))
}

/// What follows once nothing was found at the output path.
fn preflight(output: FilePath, entry: Result<(), IoError>) -> (r: (Stage, Action))
    ensures
        forall|job: JobPlanView|
            (r.0@, r.1@) == #[trigger] step(
                job,
                StageView::CheckOutput { output: output@ },
                EventView::OutputEntry(outcome_view(entry)),
            ),
{
    match entry {
        Ok(_) => finish(ExecutionError::OutputExists { path: output }),
        Err(source) => match source.kind() {
            IoErrorKind::NotFound => match output.parent() {
                Some(parent) => {
                    let next = Action::InspectParent(parent.clone());
                    (Stage::CheckParent { output, parent }, next)
                },
                None => finish(ExecutionError::InvalidOutputParent { path: output }),
            },
            _ => finish(ExecutionError::Preflight { source }),
        },
    }
}

fn next_stage(plan: &JobPlan, stage: Stage, event: Event) -> (r: (Stage, Action))
    ensures
        (r.0@, r.1@) == step(plan@, stage@, event@),
{
    match (stage, event) {
        (Stage::Resolve, Event::CurrentDirectory(directory)) => match directory {
            Ok(base) => {
                let output = base.join(plan.output());
                let next = Action::InspectOutput(output.clone());
                (Stage::CheckOutput { output }, next)
            },
            Err(source) => finish(ExecutionError::ResolveOutput { source }),
        },
        (Stage::CheckOutput { output }, Event::OutputEntry(entry)) => preflight(output, entry),
        (Stage::CheckParent { output, parent }, Event::ParentEntry(entry)) => match entry {
            Ok(directory) => if directory {
                (Stage::CreateStaging { output }, Action::CreateStaging(parent))
            } else {
                finish(ExecutionError::InvalidOutputParent { path: parent })
            },
            Err(source) => match source.kind() {
                IoErrorKind::NotFound => finish(
                    ExecutionError::InvalidOutputParent { path: parent },
                ),
                _ => finish(ExecutionError::Preflight { source }),
            },
        },
        (Stage::CreateStaging { output }, Event::StagingCreated(created)) => match created {
            Ok(staging) => {
                let request = BackendExecution::new(plan.clone(), staging.clone());
                (Stage::Execute { output, staging }, Action::Execute(request))
            },
            Err(source) => finish(ExecutionError::CreateStaging { source }),
        },
        (Stage::Execute { output, staging }, Event::Executed(result)) => match result {
            Ok(report) => {
                let next = Action::InspectStaging(staging.clone());
                (Stage::CheckStaging { output, staging, report }, next)
            },
            Err(error) => fail(from_backend(error)),
        },
        (Stage::CheckStaging { output, staging, report }, Event::StagingEntry(entry)) =>
            match validate_staging_file(&entry) {
                Ok(_) => {
                    let next = Action::Probe(staging.clone());
                    (Stage::Probe { output, staging, report }, next)
                },
                Err(error) => fail(error),
            },
        (Stage::Probe { output, staging, report }, Event::Probed(probed)) => match probed {
            Ok(media) => match validate_output(plan, &media) {
                Ok(_) => {
                    let next = Action::Sync(staging.clone());
                    (Stage::Sync { output, staging, report }, next)
                },
                Err(error) => fail(error),
            },
            Err(error) => fail(from_backend(error)),
        },
        (Stage::Sync { output, staging, report }, Event::Synced(outcome)) => match outcome {
            Ok(_) => {
                let to = output.clone();
                (Stage::Commit { output, report }, Action::Commit { from: staging, to })
            },
            Err(source) => fail(ExecutionError::Sync { source }),
        },
        (Stage::Commit { output, report }, Event::Committed(outcome)) => match outcome {
            Ok(_) => (Stage::Finish { output, report }, Action::RemoveDirectory),
            Err(source) => fail(commit_failure(source, output)),
        },
        (Stage::Finish { output, report }, Event::DirectoryRemoved(outcome)) => {
            let mut warnings: Vec<String> = Vec::new();
            match outcome {
                Ok(_) => {},
                Err(source) => {
                    warnings.push(
                        text::concat2(
                            "committed output but could not remove staging directory: ",
                            source.message(),
                        ),
                    );
                },
            }
            proof {
                assert(warnings.deep_view() =~= match outcome {
                    Ok(_) => seq![],
                    Err(source) => seq![leftover_warning(source@.message)],
                });
            }
            publish(output, report, warnings)
        },
        (Stage::Cleanup { primary }, Event::CleanedUp(outcome)) => finish(
            cleanup_or(primary, outcome),
        ),
        (Stage::Cleanup { primary }, Event::TaskFailed(message)) => {
            let cause = text::concat2(
                "cleanup task failed: filesystem task failed: ",
                message.as_str(),
            );
            finish(cleanup_or(primary, Err(IoError::new(IoErrorKind::Other, cause))))
        },
        (Stage::CheckStaging { .. }, Event::TaskFailed(_)) => fail(
            ExecutionError::InvalidStagingFile,
        ),
        (Stage::Sync { .. }, Event::TaskFailed(message)) => fail(
            ExecutionError::Sync { source: IoError::new(IoErrorKind::Other, message) },
        ),
        (Stage::Resolve, Event::TaskFailed(message)) => finish(blocking_task_error(message)),
        (Stage::CheckOutput { .. }, Event::TaskFailed(message)) => finish(
            blocking_task_error(message),
        ),
        (Stage::CheckParent { .. }, Event::TaskFailed(message)) => finish(
            blocking_task_error(message),
        ),
        (Stage::CreateStaging { .. }, Event::TaskFailed(message)) => finish(
            blocking_task_error(message),
        ),
        (Stage::Commit { .. }, Event::TaskFailed(message)) => fail(blocking_task_error(message)),
        (Stage::Finish { .. }, Event::TaskFailed(message)) => finish(blocking_task_error(message)),
        (other, _) => (other, Action::Wait),
    }
}

} // verus!
