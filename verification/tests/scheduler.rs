//! Batches: which files are worked on, and what becomes of them.
use std::time::Duration;

use sonicmux::backend::{BackendError, BackendReport, IoError, IoErrorKind, ProgressEvent, ProgressSnapshot};
use sonicmux::execution::{Action, EntryFacts, Event, ExecutionError, JobReport, Transaction};
use sonicmux::media::{FormatInfo, MediaInfo};
use sonicmux::model::{ChannelCount, StreamIndex};
use sonicmux::path::FilePath;
use sonicmux::plan::{JobPlan, OutputMode};
use sonicmux::policy::{CompatibilityPolicy, ProfileName};
use sonicmux::runtime::application::ExistingOutputOutcome;
use sonicmux::runtime::batch::{
    BatchEvent, BatchReport, BatchRequest, BatchStage, FileStatus, MutableState, SchedulerError,
    SchedulerOptions,
};
use sonicmux::runtime::error::RuntimeError;
use sonicmux::runtime::prepare::{
    bounded, finish_preparation, outcome_from_runtime, plan_file, ActionRequest,
    AudioSelectionRequest, CancellationReason, FailurePolicy, FailureStage, FileFailure,
    FileOutcome, FileRequest, PreparedResult, SkipReason,
};
use sonicmux::runtime::scheduler::{destination_parts, progress_capacity, Batch};
use sonicmux::stream::{
    AudioCodec, AudioStream, Channels, Dispositions, StreamCommon, StreamInfo, VideoStream,
};
use sonicmux::table::TextMap;
use sonicmux::target::AudioTarget;

fn common(index: u32, codec: &str) -> StreamCommon {
    StreamCommon::new(StreamIndex::new(index), codec).expect("codec is valid")
}

fn media(path: &FilePath) -> MediaInfo {
    let mut flags = TextMap::new();
    flags.insert("default".to_owned(), true);
    let audio = StreamInfo::Audio(AudioStream::new(
        common(1, "ac3").with_dispositions(Dispositions::from_flags(flags)),
        AudioCodec::Ac3,
        Channels::new(ChannelCount::new(6).expect("channels are valid"), None),
        None,
    ));
    MediaInfo::new(
        path.clone(),
        FormatInfo::new(vec!["matroska".to_owned()]).expect("format is valid"),
        vec![StreamInfo::Video(VideoStream::new(common(0, "hevc"))), audio],
        Vec::new(),
    )
    .expect("media is valid")
}

fn file(input: &str, output: &str) -> FileRequest {
    FileRequest::new(
        FilePath::from_text(input),
        FilePath::from_text(output),
        CompatibilityPolicy::for_profile(ProfileName::GenericTv),
        AudioTarget::default(),
        OutputMode::Add,
        ActionRequest::RemuxOnly(AudioSelectionRequest::FirstCompatible),
    )
}

fn options(jobs: usize, policy: FailurePolicy, dry_run: bool) -> SchedulerOptions {
    SchedulerOptions::new(jobs, policy, dry_run).expect("test scheduler options are valid")
}

/// Does what a plan asks for, without a fault.
fn publish(plan: JobPlan) -> JobReport {
    let source = plan.input().clone();
    let (mut transaction, mut action) = Transaction::start(plan, false);
    loop {
        let event = match action {
            Action::InspectOutput(_) => {
                Event::OutputEntry(Err(IoError::new(IoErrorKind::NotFound, "gone".to_owned())))
            }
            Action::InspectParent(_) => Event::ParentEntry(Ok(true)),
            Action::CreateStaging(directory) => Event::StagingCreated(Ok(
                directory.join(&FilePath::from_text(".sonicmux-1/out.mkv")),
            )),
            Action::Execute(_) => Event::Executed(Ok(BackendReport::new(
                Duration::from_millis(1),
                None,
                Vec::new(),
            ))),
            Action::InspectStaging(_) => {
                Event::StagingEntry(Ok(EntryFacts { symlink: false, file: true, length: 13 }))
            }
            Action::Probe(_) => Event::Probed(Ok(media(&source))),
            Action::Sync(_) => Event::Synced(Ok(())),
            Action::Commit { .. } => Event::Committed(Ok(())),
            Action::RemoveDirectory => Event::DirectoryRemoved(Ok(())),
            Action::Finish(result) => return result.expect("nothing goes wrong"),
            other => panic!("unexpected action: {other:?}"),
        };
        let next = transaction.advance(event);
        transaction = next.0;
        action = next.1;
    }
}

/// A batch with the files that are being worked on, and the most there were at once.
struct Work {
    batch: Batch,
    requests: Vec<FileRequest>,
    dry_run: bool,
    running: Vec<(usize, Option<JobPlan>)>,
    most: usize,
    started: usize,
    events: Vec<BatchEvent>,
}

fn begin(requests: Vec<FileRequest>, options: SchedulerOptions) -> Work {
    let dry_run = options.dry_run();
    let request = BatchRequest::new(requests, options);
    let (batch, events) = Batch::start(&request);
    let requests = request
        .files()
        .iter()
        .map(|f| file(&f.input().display(), &f.output().display()))
        .collect();
    Work { batch, requests, dry_run, running: Vec::new(), most: 0, started: 0, events }
}

impl Work {
    fn admit_all(mut self) -> Work {
        loop {
            let (batch, admitted, events) = self.batch.take_next();
            self.batch = batch;
            self.events.extend(events);
            match admitted {
                Some(admission) => {
                    self.started += 1;
                    self.running.push((admission.index, admission.plan));
                    self.most = self.most.max(self.running.len());
                }
                None => return self,
            }
        }
    }

    fn prepared_result(&self, index: usize) -> PreparedResult {
        let request = &self.requests[index];
        match plan_file(request, &media(request.input())) {
            Ok(plan) => finish_preparation(plan, ExistingOutputOutcome::Absent, self.dry_run),
            Err(outcome) => PreparedResult::Terminal(outcome),
        }
    }

    /// Prepares every file; those that are named fail to be probed.
    fn prepare(mut self, failing: &[usize]) -> Work {
        loop {
            self = self.admit_all();
            if self.running.is_empty() {
                return self;
            }
            let (index, _) = self.running.remove(0);
            let result = if failing.contains(&index) {
                PreparedResult::Terminal(outcome_from_runtime(
                    RuntimeError::Backend(BackendError::Probe {
                        path: self.requests[index].input().clone(),
                        source: "controlled probe failure".to_owned(),
                    }),
                    FailureStage::Probe,
                ))
            } else {
                self.prepared_result(index)
            };
            let batch = self.batch;
            let (batch, events) = batch.prepared(index, result, false);
            self.batch = batch;
            self.events.extend(events);
        }
    }

    fn destinations(&self) -> Vec<Option<Result<FilePath, FileFailure>>> {
        (0..self.requests.len())
            .map(|i| self.batch.plan(i).map(|plan| Ok(plan.output().clone())))
            .collect()
    }

    /// Leaves the preparations and tells whether there is something to convert.
    fn launch(mut self) -> (Work, bool) {
        let (batch, events) = self.batch.end_preparations();
        self.batch = batch;
        self.events.extend(events);
        let destinations = self.destinations();
        let (batch, events) = self.batch.reject_duplicate_destinations(&destinations);
        self.batch = batch;
        self.events.extend(events);
        let (batch, launched, events) = self.batch.launch();
        self.batch = batch;
        self.events.extend(events);
        self.most = 0;
        self.started = 0;
        (self, launched)
    }

    /// Converts every file; those that are named fail.
    fn execute(mut self, failing: &[usize]) -> Work {
        loop {
            self = self.admit_all();
            if self.running.is_empty() {
                return self;
            }
            let (index, plan) = self.running.remove(0);
            let plan = plan.expect("a conversion has a plan");
            let result = if failing.contains(&index) {
                Err(RuntimeError::Execution(ExecutionError::Backend(BackendError::Execute {
                    source: "controlled execution failure".to_owned(),
                })))
            } else if self.batch.is_stopped() {
                Err(RuntimeError::Execution(ExecutionError::Cancelled))
            } else {
                Ok(publish(plan))
            };
            let (batch, events) = self.batch.executed(index, result, false);
            self.batch = batch;
            self.events.extend(events);
        }
    }

    fn report(self) -> BatchReport {
        self.batch.finish().0
    }
}

fn numbered(count: usize) -> Vec<FileRequest> {
    (0..count)
        .map(|i| file(&format!("/in/movie-{i}.mkv"), &format!("/out/output-{i}.mkv")))
        .collect()
}

#[test]
fn execution_is_bounded_and_report_order_is_stable() {
    let work = begin(numbered(3), options(2, FailurePolicy::Continue, false)).prepare(&[]);
    let (work, launched) = work.launch();
    assert!(launched);
    let work = work.admit_all();
    assert_eq!(work.running.len(), 2);
    assert_eq!(work.batch.active(), 2);
    let work = work.execute(&[]);
    assert_eq!(work.most, 2);
    let report = work.report();
    assert_eq!(report.results().len(), 3);
    assert!(report.results().iter().enumerate().all(|(index, result)| {
        result.id().get() == index && matches!(result.outcome(), FileOutcome::Succeeded(_))
    }));
    assert_eq!(report.cancellation(), None);
}

#[test]
fn preparation_is_bounded_by_the_same_limit() {
    let work = begin(numbered(3), options(2, FailurePolicy::Continue, true)).admit_all();
    assert_eq!(work.running.len(), 2);
    let work = work.prepare(&[]);
    assert_eq!(work.most, 2);
    let (work, launched) = work.launch();
    assert!(!launched);
    assert!(work
        .report()
        .results()
        .iter()
        .all(|result| matches!(result.outcome(), FileOutcome::Planned(_))));
}

#[test]
fn continue_policy_contains_one_file_failure() {
    let requests = vec![
        file("/in/good-a.mkv", "/out/a.mkv"),
        file("/in/bad.mkv", "/out/bad.mkv"),
        file("/in/good-b.mkv", "/out/b.mkv"),
    ];
    let (work, _) = begin(requests, options(2, FailurePolicy::Continue, false)).prepare(&[]).launch();
    let report = work.execute(&[1]).report();
    assert_eq!(report.failure_count(), 1);
    assert_eq!(
        report
            .results()
            .iter()
            .filter(|result| matches!(result.outcome(), FileOutcome::Succeeded(_)))
            .count(),
        2
    );
}

#[test]
fn fail_fast_stops_preparation_admission() {
    let work = begin(numbered(3), options(1, FailurePolicy::FailFast, false)).prepare(&[0]);
    assert_eq!(work.started, 1);
    let (work, launched) = work.launch();
    assert!(!launched);
    let report = work.report();
    assert!(matches!(report.results()[0].outcome(), FileOutcome::Failed(_)));
    assert!(report.results()[1..].iter().all(|result| matches!(
        result.outcome(),
        FileOutcome::Cancelled(CancellationReason::FailFast)
    )));
}

#[test]
fn duplicate_destinations_fail_before_execution() {
    let requests = vec![file("/in/a.mkv", "/out/same.mkv"), file("/in/b.mkv", "/out/same.mkv")];
    let (work, launched) =
        begin(requests, options(2, FailurePolicy::Continue, false)).prepare(&[]).launch();
    assert!(!launched);
    assert!(work
        .report()
        .results()
        .iter()
        .all(|result| matches!(result.outcome(), FileOutcome::Failed(_))));
}

#[test]
fn fail_fast_duplicate_conflict_cancels_other_ready_jobs() {
    let requests = vec![
        file("/in/a.mkv", "/out/same.mkv"),
        file("/in/b.mkv", "/out/same.mkv"),
        file("/in/c.mkv", "/out/unique.mkv"),
    ];
    let (work, launched) =
        begin(requests, options(3, FailurePolicy::FailFast, false)).prepare(&[]).launch();
    assert!(!launched);
    let report = work.report();
    assert!(matches!(report.results()[0].outcome(), FileOutcome::Failed(_)));
    assert!(matches!(report.results()[1].outcome(), FileOutcome::Failed(_)));
    assert!(matches!(
        report.results()[2].outcome(),
        FileOutcome::Cancelled(CancellationReason::FailFast)
    ));
}

#[test]
fn fail_fast_execution_cancels_active_and_pending_jobs() {
    let (work, _) =
        begin(numbered(3), options(2, FailurePolicy::FailFast, false)).prepare(&[]).launch();
    let work = work.execute(&[0]);
    assert_eq!(work.started, 2);
    let report = work.report();
    assert!(matches!(report.results()[0].outcome(), FileOutcome::Failed(_)));
    assert!(report.results()[1..].iter().all(|result| matches!(
        result.outcome(),
        FileOutcome::Cancelled(CancellationReason::FailFast)
    )));
}

#[test]
fn user_cancellation_waits_for_cleanup() {
    let (work, _) = begin(
        vec![file("/in/long.mkv", "/out/cancelled.mkv")],
        options(1, FailurePolicy::Continue, false),
    )
    .prepare(&[])
    .launch();
    let mut work = work.admit_all();
    let (batch, events) = work.batch.cancel();
    work.batch = batch;
    work.events.extend(events);
    assert_eq!(work.batch.active(), 1);
    assert!(work.batch.is_stopped());
    let (batch, _) =
        work.batch.executed(0, Err(RuntimeError::Execution(ExecutionError::Cancelled)), true);
    let (report, snapshot, event) = batch.finish();
    assert_eq!(report.cancellation(), Some(CancellationReason::User));
    assert!(matches!(
        report.results()[0].outcome(),
        FileOutcome::Cancelled(CancellationReason::User)
    ));
    assert_eq!(snapshot.stage(), BatchStage::Cancelled);
    assert_eq!(event, BatchEvent::BatchCancelled);
}

#[test]
fn dropping_event_receivers_does_not_change_truth() {
    let (mut work, _) = begin(
        vec![file("/in/movie.mkv", "/out/output.mkv")],
        options(1, FailurePolicy::Continue, false),
    )
    .prepare(&[])
    .launch();
    work.events = Vec::new();
    let report = work.execute(&[]).report();
    assert!(matches!(report.results()[0].outcome(), FileOutcome::Succeeded(_)));
}

#[test]
fn aggregate_progress_is_weighted_and_unknown_is_indeterminate() {
    let requests = vec![file("a.mkv", "a.out.mkv"), file("b.mkv", "b.out.mkv")];
    let mut state = MutableState::new(&requests);
    state.stage = BatchStage::Executing;
    state.files[0].will_execute = true;
    state.files[0].duration_us = Some(100);
    state.files[0].position_us = Some(50);
    state.files[0].status = FileStatus::Running;
    state.files[1].will_execute = true;
    assert_eq!(state.snapshot(Some(0)).progress_milli(), None);
    state.files[1].duration_us = Some(300);
    state.files[1].position_us = Some(150);
    state.files[1].status = FileStatus::Running;
    assert_eq!(state.snapshot(Some(0)).progress_milli(), Some(500));
}

#[test]
fn lost_tasks_are_failures() {
    let work = begin(numbered(2), options(1, FailurePolicy::Continue, false)).admit_all();
    let (index, _) = work.running[0];
    let batch = work.batch;
    let (batch, _) = batch.lost(index, "panicked".to_owned());
    let (batch, admitted, _) = batch.take_next();
    assert_eq!(admitted.map(|a| a.index), Some(1));
    let (batch, _) = batch.lost(1, "panicked".to_owned());
    let report = batch.finish().0;
    assert_eq!(report.failure_count(), 2);
}

#[test]
fn events_tell_the_story_of_a_batch() {
    let (work, _) = begin(numbered(1), options(1, FailurePolicy::Continue, false)).prepare(&[]).launch();
    let work = work.admit_all();
    let progress = ProgressSnapshot {
        out_time_us: Some(1_000),
        total_size_bytes: None,
        speed_milli: Some(2_000),
        frame: None,
        dropped_frames: None,
    };
    let Work { batch, running, .. } = work;
    let (batch, events) = batch.progress(running[0].0, ProgressEvent::Advanced(progress));
    assert!(matches!(events.first(), Some(BatchEvent::FileProgress { .. })));
    assert_eq!(batch.snapshot(None).files()[0].position_us(), Some(1_000));
    let plan = running.into_iter().next().and_then(|r| r.1).expect("a plan");
    let (batch, events) = batch.executed(0, Ok(publish(plan)), false);
    assert!(matches!(
        events.first(),
        Some(BatchEvent::FileFinished { status: FileStatus::Succeeded, .. })
    ));
    let (_, snapshot, event) = batch.finish();
    assert_eq!(event, BatchEvent::BatchFinished);
    assert_eq!((snapshot.completed(), snapshot.total()), (1, 1));
}

#[test]
fn outputs_that_are_valid_already_are_skipped() {
    let request = file("/in/a.mkv", "/out/a.mkv");
    let plan = plan_file(&request, &media(request.input())).expect("there is something to do");
    assert!(matches!(
        finish_preparation(plan.clone(), ExistingOutputOutcome::Valid, false),
        PreparedResult::Terminal(FileOutcome::Skipped(SkipReason::ValidExistingOutput))
    ));
    assert!(matches!(
        finish_preparation(plan.clone(), ExistingOutputOutcome::Conflict { mismatches: Vec::new() }, false),
        PreparedResult::Terminal(FileOutcome::Failed(_))
    ));
    assert!(matches!(
        finish_preparation(plan, ExistingOutputOutcome::Absent, false),
        PreparedResult::Ready(_)
    ));
}

#[test]
fn concurrency_has_a_limit() {
    assert!(SchedulerOptions::new(64, FailurePolicy::Continue, false).is_ok());
    assert!(matches!(
        SchedulerOptions::new(65, FailurePolicy::Continue, false),
        Err(SchedulerError::InvalidConcurrency { .. })
    ));
    assert_eq!(progress_capacity(1), 32);
    assert_eq!(progress_capacity(64), 2_048);
}

#[test]
fn destinations_have_a_directory_and_a_name() {
    let (directory, name) =
        destination_parts(&FilePath::from_text("/out/a.mkv")).expect("both are there");
    assert_eq!(directory, FilePath::from_text("/out"));
    assert_eq!(name, FilePath::from_text("a.mkv"));
    let failure = destination_parts(&FilePath::from_text("/")).expect_err("no parent");
    assert_eq!(failure.stage(), FailureStage::Conflict);
    assert_eq!(failure.message(), "output has no parent directory");
}

#[test]
fn long_messages_are_cut_at_a_character() {
    let long = bounded("\u{e9}".repeat(5_000));
    assert!(long.ends_with('\u{2026}'));
    assert!(long.len() <= 8_192 + 3);
    assert_eq!(bounded("short".to_owned()), "short");
    assert_eq!(
        outcome_from_runtime(RuntimeError::Backend(BackendError::Cancelled), FailureStage::Probe),
        FileOutcome::Cancelled(CancellationReason::User)
    );
}

#[test]
fn outcomes_are_final() {
    let (work, _) = begin(numbered(2), options(2, FailurePolicy::Continue, false)).prepare(&[]).launch();
    let work = work.admit_all();
    let failure = || Err(RuntimeError::Execution(ExecutionError::InvalidStagingFile));
    let (batch, _) = work.batch.executed(0, failure(), false);
    let (batch, events) = batch.executed(0, Err(RuntimeError::Backend(BackendError::Cancelled)), true);
    assert!(events.is_empty());
    let (batch, events) = batch.lost(0, "panicked".to_owned());
    assert!(events.is_empty());
    let (batch, _) = batch.cancel();
    let (batch, admitted, _) = batch.take_next();
    assert!(admitted.is_none());
    let report = batch.finish().0;
    assert!(matches!(
        report.results()[0].outcome(),
        FileOutcome::Failed(failure) if failure.stage() == FailureStage::Execute
    ));
    assert!(matches!(
        report.results()[1].outcome(),
        FileOutcome::Failed(failure) if failure.stage() == FailureStage::Internal
    ));
    assert_eq!(report.cancellation(), Some(CancellationReason::User));
}

#[test]
fn progress_never_passes_the_end() {
    let requests = vec![file("a.mkv", "a.out.mkv")];
    let mut state = MutableState::new(&requests);
    state.stage = BatchStage::Executing;
    state.files[0].will_execute = true;
    state.files[0].duration_us = Some(100);
    state.files[0].position_us = Some(900);
    state.files[0].status = FileStatus::Running;
    assert!(state.snapshot(Some(0)).progress_milli().is_some_and(|milli| milli <= 1_000));
}
