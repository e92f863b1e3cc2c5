//! The work on a batch, one decision at a time: which file is next, what an event means for it and
//! for the others, and what became of each.
use vstd::prelude::*;

use crate::backend::{ProgressEvent, ProgressSnapshot};
use crate::execution::{JobReport, JobReportView};
use crate::path;
use crate::path::FilePath;
use crate::plan::{JobPlan, JobPlanView};
use crate::runtime::batch;
use crate::runtime::batch::{
    status_for_outcome, BatchEvent, BatchEventView, BatchReport, BatchReportView, BatchRequest,
    BatchRequestView, BatchSnapshot, BatchStage, FileResult, FileResultView,
    FileStateView, FileStatus, JobId, MutableState, OptionsView, SchedulerOptions, StatusClass,
};
use crate::runtime::error;
use crate::runtime::error::{runtime_error_cancelled, RuntimeError, RuntimeErrorView};
use crate::runtime::prepare;
use crate::runtime::prepare::{
    CancellationReason, FailurePolicy, FailureStage, FileFailure, FileFailureView, FileOutcome,
    FileOutcomeView, PreparedResult, PreparedView,
};

verus! {

/// A batch that is being worked on.
pub struct BatchView {
    /// How it is worked on.
    pub options: OptionsView,
    /// How far it is.
    pub stage: BatchStage,
    /// The files in order.
    pub files: Seq<FileStateView>,
    /// How often a file was seen to advance.
    pub advancing_samples: usize,
    /// What became of the files.
    pub terminal: Seq<Option<FileOutcomeView>>,
    /// The plans of the files that are ready.
    pub prepared: Seq<Option<JobPlanView>>,
    /// The first file that was not admitted yet.
    pub next: int,
    /// How many files are being worked on.
    pub active: int,
    /// Whether files are converted.
    pub executing: bool,
    /// Whether no more files are admitted.
    pub stopped: bool,
    /// Whether the user cancelled.
    pub user_cancelled: bool,
    /// Whether a failure stopped the batch.
    pub fail_fast: bool,
}

/// A batch after a decision, and what there is to report.
pub struct Step {
    /// The batch.
    pub batch: BatchView,
    /// What there is to report, in order.
    pub events: Seq<BatchEventView>,
}

impl BatchView {
    /// A batch that nothing was decided on.
    pub open spec fn begun(request: BatchRequestView) -> BatchView {
        let n = request.files.len();
        BatchView {
            options: request.options,
            stage: BatchStage::Preparing,
            files: batch::queued_files(request.files),
            advancing_samples: 0,
            terminal: Seq::new(n, |i: int| None),
            prepared: Seq::new(n, |i: int| None),
            next: 0,
            active: 0,
            executing: false,
            stopped: false,
            user_cancelled: false,
            fail_fast: false,
        }
    }

    /// Whether a file waits for admission.
    pub open spec fn awaits(self, i: int) -> bool {
        self.next <= i < self.files.len() && (self.executing ==> self.prepared[i] is Some)
    }

    /// The report that the work on a file is over.
    pub open spec fn finished(self, i: int, status: FileStatus) -> BatchEventView {
        BatchEventView::FileFinished { id: i as usize, path: self.files[i].path, status }
    }

    /// The reports on the first `n` files that they are cancelled, where they wait.
    pub open spec fn drained_events(self, n: int) -> Seq<BatchEventView>
        decreases n,
    {
        if n <= 0 {
            seq![]
        } else if self.awaits(n - 1) {
            self.drained_events(n - 1).push(self.finished(n - 1, FileStatus::Cancelled))
        } else {
            self.drained_events(n - 1)
        }
    }

    /// The batch with those of the first `n` files cancelled that wait.
    pub open spec fn drained_up_to(self, reason: CancellationReason, n: int) -> BatchView {
        BatchView {
            files: Seq::new(
                self.files.len(),
                |i: int|
                    if i < n && self.awaits(i) {
                        FileStateView { status: FileStatus::Cancelled, ..self.files[i] }
                    } else {
                        self.files[i]
                    },
            ),
            terminal: Seq::new(
                self.terminal.len(),
                |i: int|
                    if i < n && self.awaits(i) {
                        Some(FileOutcomeView::Cancelled(reason))
                    } else {
                        self.terminal[i]
                    },
            ),
            prepared: Seq::new(
                self.prepared.len(),
                |i: int|
                    if i < n && self.awaits(i) {
                        None
                    } else {
                        self.prepared[i]
                    },
            ),
            ..self
        }
    }

    /// The batch with all files cancelled that wait; no more are admitted.
    pub open spec fn halted(self, reason: CancellationReason) -> Step {
        let drained = self.drained_up_to(reason, self.files.len() as int);
        Step {
            batch: BatchView {
                next: self.files.len() as int,
                stopped: true,
                user_cancelled: self.user_cancelled || reason == CancellationReason::User,
                fail_fast: self.fail_fast || reason == CancellationReason::FailFast,
                ..drained
            },
            events: self.drained_events(self.files.len() as int),
        }
    }

    /// The batch after the user cancelled it.
    pub open spec fn cancelled(self) -> Step {
        if self.user_cancelled {
            Step { batch: self, events: seq![] }
        } else {
            self.halted(CancellationReason::User)
        }
    }

    /// The first file at or behind a place that waits for admission.
    pub open spec fn first_waiting(self, from: int) -> Option<int>
        decreases self.files.len() - from,
    {
        if from >= self.files.len() || from < 0 {
            None
        } else if self.awaits(from) {
            Some(from)
        } else {
            self.first_waiting(from + 1)
        }
    }

    /// The file that is admitted next: the first that waits, unless admission has stopped or as
    /// many files are being worked on as the options allow.
    pub open spec fn admissible(self) -> Option<int> {
        if self.stopped || self.active >= self.options.max_concurrency {
            None
        } else {
            self.first_waiting(self.next)
        }
    }

    /// The batch with a file admitted.
    pub open spec fn admitted(self, i: int) -> Step {
        let status = if self.executing {
            FileStatus::Running
        } else {
            FileStatus::Preparing
        };
        Step {
            batch: BatchView {
                files: self.files.update(i, FileStateView { status, ..self.files[i] }),
                prepared: self.prepared.update(i, None),
                next: i + 1,
                active: self.active + 1,
                ..self
            },
            events: if self.executing {
                seq![]
            } else {
                seq![BatchEventView::FileStarted { id: i as usize, path: self.files[i].path }]
            },
        }
    }

    /// Whether the work on a file is going on.
    pub open spec fn is_busy(self, i: int) -> bool {
        0 <= i < self.files.len() && self.files[i].status.busy()
    }

    /// The batch with the work on a file over. A converted file has no time left, and a published
    /// one is converted as a whole.
    pub open spec fn settled(self, i: int, outcome: FileOutcomeView) -> BatchView {
        let before = self.files[i];
        let status = batch::status_of(outcome);
        let after = if self.executing {
            FileStateView {
                status,
                eta_us: None,
                position_us: if status == FileStatus::Succeeded {
                    before.duration_us
                } else {
                    before.position_us
                },
                ..before
            }
        } else {
            FileStateView { status, ..before }
        };
        BatchView {
            files: self.files.update(i, after),
            terminal: self.terminal.update(i, Some(outcome)),
            active: self.active - 1,
            ..self
        }
    }

    /// What a failure of one file means for the others.
    pub open spec fn after_outcome(self, outcome: FileOutcomeView) -> Step {
        if outcome is Failed && self.options.failure_policy == FailurePolicy::FailFast {
            self.halted(CancellationReason::FailFast)
        } else {
            Step { batch: self, events: seq![] }
        }
    }

    /// What the backend calls a cancellation: the user's where the user cancelled, that of a
    /// failure where one stopped the batch, and a failure otherwise.
    pub open spec fn explained(self, cancelled: bool) -> FileOutcomeView {
        if cancelled {
            FileOutcomeView::Cancelled(CancellationReason::User)
        } else if self.fail_fast {
            FileOutcomeView::Cancelled(CancellationReason::FailFast)
        } else {
            FileOutcomeView::Failed(
                prepare::failure(
                    FailureStage::Internal,
                    "backend cancelled without a scheduler cancellation"@,
                ),
            )
        }
    }

    /// The batch before a cancellation of one file is settled.
    pub open spec fn acknowledged(self, is_cancellation: bool, cancelled: bool) -> Step {
        if is_cancellation && cancelled {
            self.halted(CancellationReason::User)
        } else {
            Step { batch: self, events: seq![] }
        }
    }

    /// The batch with a file ready.
    pub open spec fn readied(self, i: int, job: JobPlanView) -> BatchView {
        BatchView {
            files: self.files.update(
                i,
                FileStateView {
                    duration_us: job.duration,
                    will_execute: true,
                    status: FileStatus::Ready,
                    ..self.files[i]
                },
            ),
            prepared: self.prepared.update(i, Some(job)),
            active: self.active - 1,
            ..self
        }
    }

    /// The batch after the preparation of a file, given whether the user has cancelled by now.
    pub open spec fn after_preparation(self, i: int, result: PreparedView, cancelled: bool) -> Step {
        if !self.is_busy(i) || self.executing {
            Step { batch: self, events: seq![] }
        } else {
            let path = self.files[i].path;
            match result {
                PreparedView::Ready(job) => Step {
                    batch: self.readied(i, job),
                    events: seq![
                        BatchEventView::FilePrepared {
                            id: i as usize,
                            path,
                            status: FileStatus::Ready,
                        },
                    ],
                },
                PreparedView::Terminal(reported) => {
                    let first = self.acknowledged(reported is Cancelled, cancelled);
                    let outcome = if reported is Cancelled {
                        self.explained(cancelled)
                    } else {
                        reported
                    };
                    let status = batch::status_of(outcome);
                    let last = first.batch.settled(i, outcome).after_outcome(outcome);
                    Step {
                        batch: last.batch,
                        events: first.events + last.events + seq![
                            BatchEventView::FilePrepared { id: i as usize, path, status },
                            BatchEventView::FileFinished { id: i as usize, path, status },
                        ],
                    }
                },
            }
        }
    }

    /// The outcome of a file whose conversion came to this, given whether the user has cancelled by
    /// now.
    pub open spec fn conversion_outcome(
        self,
        result: Result<JobReportView, RuntimeErrorView>,
        cancelled: bool,
    ) -> FileOutcomeView {
        match result {
            Ok(report) => FileOutcomeView::Succeeded(report),
            Err(e) => if error::is_cancellation(e) {
                self.explained(cancelled)
            } else {
                FileOutcomeView::Failed(prepare::failure(FailureStage::Execute, e.message()))
            },
        }
    }

    /// The batch after the conversion of a file, given whether the user has cancelled by now.
    pub open spec fn after_execution(
        self,
        i: int,
        result: Result<JobReportView, RuntimeErrorView>,
        cancelled: bool,
    ) -> Step {
        if !self.is_busy(i) || !self.executing {
            Step { batch: self, events: seq![] }
        } else {
            let given_up = result matches Err(e) && error::is_cancellation(e);
            let first = self.acknowledged(given_up, cancelled);
            let outcome = self.conversion_outcome(result, cancelled);
            let last = first.batch.settled(i, outcome).after_outcome(outcome);
            Step {
                batch: last.batch,
                events: first.events + seq![self.finished(i, batch::status_of(outcome))]
                    + last.events,
            }
        }
    }

    /// The outcome of a file whose task did not finish.
    pub open spec fn lost_outcome(self, message: Seq<char>) -> FileOutcomeView {
        if self.user_cancelled {
            FileOutcomeView::Cancelled(CancellationReason::User)
        } else if self.fail_fast {
            FileOutcomeView::Cancelled(CancellationReason::FailFast)
        } else {
            FileOutcomeView::Failed(prepare::failure(FailureStage::Internal, message))
        }
    }

    /// The batch after the task of a file did not finish.
    pub open spec fn after_loss(self, i: int, message: Seq<char>) -> Step {
        if !self.is_busy(i) {
            Step { batch: self, events: seq![] }
        } else {
            let outcome = self.lost_outcome(message);
            let last = self.settled(i, outcome).after_outcome(outcome);
            Step {
                batch: last.batch,
                events: seq![self.finished(i, batch::status_of(outcome))] + last.events,
            }
        }
    }

    /// Whether nothing is going on and nothing waits.
    pub open spec fn is_idle(self) -> bool {
        self.active == 0 && self.first_waiting(self.next) is None
    }

    /// Whether a file is ready and nothing became of it yet.
    pub open spec fn is_ready(self, i: int) -> bool {
        self.prepared[i] is Some && self.terminal[i] is None
    }

    /// The reports on the first `n` files that they are cancelled, where they are ready.
    pub open spec fn withdrawn_events(self, n: int) -> Seq<BatchEventView>
        decreases n,
    {
        if n <= 0 {
            seq![]
        } else if self.is_ready(n - 1) {
            self.withdrawn_events(n - 1).push(self.finished(n - 1, FileStatus::Cancelled))
        } else {
            self.withdrawn_events(n - 1)
        }
    }

    /// The batch with the plans of the first `n` files dropped.
    pub open spec fn withdrawn_up_to(self, reason: CancellationReason, n: int) -> BatchView {
        BatchView {
            files: Seq::new(
                self.files.len(),
                |i: int|
                    if i < n && self.is_ready(i) {
                        FileStateView { status: FileStatus::Cancelled, ..self.files[i] }
                    } else {
                        self.files[i]
                    },
            ),
            terminal: Seq::new(
                self.terminal.len(),
                |i: int|
                    if i < n && self.is_ready(i) {
                        Some(FileOutcomeView::Cancelled(reason))
                    } else {
                        self.terminal[i]
                    },
            ),
            prepared: Seq::new(
                self.prepared.len(),
                |i: int|
                    if i < n {
                        None
                    } else {
                        self.prepared[i]
                    },
            ),
            ..self
        }
    }

    /// The batch with all plans dropped.
    pub open spec fn withdrawn(self, reason: CancellationReason) -> Step {
        Step {
            batch: self.withdrawn_up_to(reason, self.files.len() as int),
            events: self.withdrawn_events(self.files.len() as int),
        }
    }

    /// The batch at the end of the preparations: where it was cancelled, nothing is converted.
    pub open spec fn after_preparations(self) -> Step {
        if self.user_cancelled {
            self.withdrawn(CancellationReason::User)
        } else if self.fail_fast {
            self.withdrawn(CancellationReason::FailFast)
        } else {
            Step { batch: self, events: seq![] }
        }
    }

    /// Whether another ready file has the same destination.
    pub open spec fn is_shared(
        self,
        destinations: Seq<Option<Result<Seq<u8>, FileFailureView>>>,
        i: int,
    ) -> bool {
        exists|j: int|
            0 <= j < self.files.len() && j != i && #[trigger] self.is_ready(j) && same_destination(
                destinations,
                i,
                j,
            )
    }

    /// Why a ready file cannot be converted: its destination is not known, or another ready file
    /// has the same.
    pub open spec fn rejection(
        self,
        destinations: Seq<Option<Result<Seq<u8>, FileFailureView>>>,
        i: int,
    ) -> Option<FileFailureView> {
        if !self.is_ready(i) || i >= destinations.len() {
            None
        } else {
            match destinations[i] {
                Some(Err(f)) => Some(f),
                Some(Ok(_)) => if self.is_shared(destinations, i) {
                    Some(
                        prepare::failure(
                            FailureStage::Conflict,
                            "multiple inputs resolve to the same output path"@,
                        ),
                    )
                } else {
                    None
                },
                None => None,
            }
        }
    }

    /// The reports on the first `n` files that they failed, where they are rejected.
    pub open spec fn rejected_events(
        self,
        destinations: Seq<Option<Result<Seq<u8>, FileFailureView>>>,
        n: int,
    ) -> Seq<BatchEventView>
        decreases n,
    {
        if n <= 0 {
            seq![]
        } else if self.rejection(destinations, n - 1) is Some {
            self.rejected_events(destinations, n - 1).push(
                self.finished(n - 1, FileStatus::Failed),
            )
        } else {
            self.rejected_events(destinations, n - 1)
        }
    }

    /// The batch with those of the first `n` files failed that are rejected.
    pub open spec fn rejected_up_to(
        self,
        destinations: Seq<Option<Result<Seq<u8>, FileFailureView>>>,
        n: int,
    ) -> BatchView {
        BatchView {
            files: Seq::new(
                self.files.len(),
                |i: int|
                    if i < n && self.rejection(destinations, i) is Some {
                        FileStateView { status: FileStatus::Failed, ..self.files[i] }
                    } else {
                        self.files[i]
                    },
            ),
            terminal: Seq::new(
                self.terminal.len(),
                |i: int|
                    if i < n && self.rejection(destinations, i) is Some {
                        Some(FileOutcomeView::Failed(self.rejection(destinations, i)->0))
                    } else {
                        self.terminal[i]
                    },
            ),
            prepared: Seq::new(
                self.prepared.len(),
                |i: int|
                    if i < n && self.rejection(destinations, i) is Some {
                        None
                    } else {
                        self.prepared[i]
                    },
            ),
            ..self
        }
    }

    /// Whether some file failed.
    pub open spec fn has_failure(self) -> bool {
        exists|i: int| 0 <= i < self.terminal.len() && failed(#[trigger] self.terminal[i])
    }

    /// The batch once the destinations of the ready files are known.
    pub open spec fn after_destinations(
        self,
        destinations: Seq<Option<Result<Seq<u8>, FileFailureView>>>,
    ) -> Step {
        if self.user_cancelled || self.options.dry_run || self.executing {
            Step { batch: self, events: seq![] }
        } else {
            let n = self.files.len() as int;
            let rejected = self.rejected_up_to(destinations, n);
            let events = self.rejected_events(destinations, n);
            if self.options.failure_policy == FailurePolicy::FailFast && rejected.has_failure() {
                let last = rejected.withdrawn(CancellationReason::FailFast);
                Step { batch: last.batch, events: events + last.events }
            } else {
                Step { batch: rejected, events }
            }
        }
    }

    /// How many of the first `n` files are ready.
    pub open spec fn ready_count(self, n: int) -> nat
        decreases n,
    {
        if n <= 0 {
            0
        } else {
            self.ready_count(n - 1) + if self.prepared[n - 1] is Some {
                1nat
            } else {
                0
            }
        }
    }

    /// Whether files are to be converted now.
    pub open spec fn can_execute(self) -> bool {
        !self.user_cancelled && !self.options.dry_run && !self.executing && self.is_idle()
            && self.ready_count(self.files.len() as int) > 0
    }

    /// The batch at the beginning of the conversions.
    pub open spec fn after_launch(self) -> Step {
        if self.can_execute() {
            Step {
                batch: BatchView {
                    stage: BatchStage::Executing,
                    executing: true,
                    next: 0,
                    stopped: false,
                    fail_fast: false,
                    ..self
                },
                events: seq![
                    BatchEventView::ExecutionStarted {
                        ready: self.ready_count(self.files.len() as int) as usize,
                    },
                ],
            }
        } else {
            Step { batch: self, events: seq![] }
        }
    }

    /// The batch after a progress report of a file.
    pub open spec fn after_progress(self, i: int, event: ProgressEvent) -> Step {
        let record = match event {
            ProgressEvent::Started => None,
            ProgressEvent::Advanced(p) => Some(p),
            ProgressEvent::Finished(p) => Some(p),
        };
        match record {
            Some(progress) => if 0 <= i < self.files.len() {
                let before = self.files[i];
                let after = batch::progressed(before, progress);
                Step {
                    batch: BatchView {
                        files: self.files.update(i, after),
                        advancing_samples: if batch::beyond(
                            after.position_us,
                            before.position_us,
                        ) {
                            batch::one_more(self.advancing_samples)
                        } else {
                            self.advancing_samples
                        },
                        ..self
                    },
                    events: seq![
                        BatchEventView::FileProgress {
                            id: i as usize,
                            path: before.path,
                            progress,
                        },
                    ],
                }
            } else {
                Step { batch: self, events: seq![] }
            },
            None => Step { batch: self, events: seq![] },
        }
    }

    /// What became of a file.
    pub open spec fn result_of(self, i: int) -> FileResultView {
        FileResultView {
            id: i as usize,
            input: self.files[i].path,
            outcome: match self.terminal[i] {
                Some(o) => o,
                None => FileOutcomeView::Failed(
                    prepare::failure(
                        FailureStage::Internal,
                        "scheduler omitted a terminal file result"@,
                    ),
                ),
            },
        }
    }

    /// What became of the batch.
    pub open spec fn report(self) -> BatchReportView {
        BatchReportView {
            results: Seq::new(self.files.len(), |i: int| self.result_of(i)),
            cancellation: if self.user_cancelled {
                Some(CancellationReason::User)
            } else {
                None
            },
        }
    }

    /// The stage of the batch once it is over.
    pub open spec fn final_stage(self) -> BatchStage {
        if self.user_cancelled {
            BatchStage::Cancelled
        } else {
            BatchStage::Finished
        }
    }

    /// What every batch keeps: as many files are being worked on as are said to be, and never more
    /// than the options allow; a file is over exactly where its outcome is known; a file is ready
    /// exactly where its plan is kept; and only files that were not admitted yet are queued.
    pub open spec fn sound(self) -> bool {
        &&& self.terminal.len() == self.files.len()
        &&& self.prepared.len() == self.files.len()
        &&& 0 <= self.next <= self.files.len()
        &&& self.active == batch::count_class(self.files, StatusClass::Active)
        &&& self.active <= self.options.max_concurrency
        &&& forall|i: int| 0 <= i < self.files.len() ==> #[trigger] self.file_sound(i)
    }

    /// What every file of a batch keeps.
    pub open spec fn file_sound(self, i: int) -> bool {
        let status = self.files[i].status;
        &&& (self.prepared[i] is Some <==> status == FileStatus::Ready)
        &&& (self.executing && status == FileStatus::Ready ==> i >= self.next)
        &&& (self.terminal[i] is Some <==> status.over())
        &&& (self.terminal[i] matches Some(o) ==> status == batch::status_of(o))
        &&& (status == FileStatus::Queued <==> !self.executing && i >= self.next)
        &&& (self.executing ==> status != FileStatus::Preparing)
        &&& (!self.executing ==> status != FileStatus::Running)
    }
}

/// Whether two files have the same destination.
pub open spec fn same_destination(
    destinations: Seq<Option<Result<Seq<u8>, FileFailureView>>>,
    i: int,
    j: int,
) -> bool {
    i < destinations.len() && j < destinations.len() && match (destinations[i], destinations[j]) {
        (Some(Ok(a)), Some(Ok(b))) => path::same_path(a, b),
        _ => false,
    }
}

/// Whether an outcome is a failure.
pub open spec fn failed(outcome: Option<FileOutcomeView>) -> bool {
    outcome matches Some(o) && o is Failed
}

proof fn lemma_same_classes(a: Seq<FileStateView>, b: Seq<FileStateView>)
    requires
        a.len() == b.len(),
        forall|i: int| 0 <= i < a.len() ==> (#[trigger] a[i]).status.busy() == b[i].status.busy(),
    ensures
        batch::count_class(a, StatusClass::Active) == batch::count_class(b, StatusClass::Active),
    decreases a.len(),
{
    if a.len() > 0 {
        let x = a.drop_last();
        let y = b.drop_last();
        assert forall|i: int| 0 <= i < x.len() implies (#[trigger] x[i]).status.busy()
            == y[i].status.busy() by {
            assert(x[i] == a[i]);
            assert(y[i] == b[i]);
        }
        lemma_same_classes(x, y);
        assert(a[a.len() - 1].status.busy() == b[a.len() - 1].status.busy());
    }
}

proof fn lemma_one_class(files: Seq<FileStateView>, i: int, after: FileStateView)
    requires
        0 <= i < files.len(),
    ensures
        batch::count_class(files.update(i, after), StatusClass::Active) == batch::count_class(
            files,
            StatusClass::Active,
        ) + (if after.status.busy() {
            1int
        } else {
            0
        }) - (if files[i].status.busy() {
            1int
        } else {
            0
        }),
    decreases files.len(),
{
    let updated = files.update(i, after);
    if i == files.len() - 1 {
        assert(updated.drop_last() =~= files.drop_last());
    } else {
        assert(updated.drop_last() =~= files.drop_last().update(i, after));
        lemma_one_class(files.drop_last(), i, after);
        assert(updated.last() == files.last());
    }
}

pub(crate) proof fn lemma_first_waiting(b: BatchView, from: int)
    requires
        0 <= from,
    ensures
        match b.first_waiting(from) {
            Some(i) => from <= i < b.files.len() && b.awaits(i) && (forall|j: int|
                from <= j < i ==> !b.awaits(j)),
            None => forall|j: int| from <= j < b.files.len() ==> !b.awaits(j),
        },
    decreases b.files.len() - from,
{
    if from < b.files.len() && !b.awaits(from) {
        lemma_first_waiting(b, from + 1);
    }
}

pub(crate) proof fn lemma_halted_sound(b: BatchView, reason: CancellationReason)
    requires
        b.sound(),
    ensures
        b.halted(reason).batch.sound(),
        forall|i: int|
            0 <= i < b.files.len() && (#[trigger] b.files[i]).status.busy() ==> b.halted(
                reason,
            ).batch.files[i] == b.files[i],
{
    let after = b.halted(reason).batch;
    assert forall|i: int| 0 <= i < b.files.len() implies (#[trigger] b.files[i]).status.busy()
        == after.files[i].status.busy() by {
        assert(b.file_sound(i));
    }
    lemma_same_classes(b.files, after.files);
    assert forall|i: int| 0 <= i < after.files.len() implies #[trigger] after.file_sound(i) by {
        assert(b.file_sound(i));
    }
    assert forall|i: int|
        0 <= i < b.files.len() && (#[trigger] b.files[i]).status.busy() implies after.files[i]
        == b.files[i] by {
        assert(b.file_sound(i));
    }
}

pub(crate) proof fn lemma_settled_sound(b: BatchView, i: int, outcome: FileOutcomeView)
    requires
        b.sound(),
        b.is_busy(i),
    ensures
        b.settled(i, outcome).sound(),
{
    let after = b.settled(i, outcome);
    lemma_one_class(b.files, i, after.files[i]);
    assert forall|j: int| 0 <= j < after.files.len() implies #[trigger] after.file_sound(j) by {
        assert(b.file_sound(j));
    }
}

proof fn lemma_after_outcome_sound(b: BatchView, outcome: FileOutcomeView)
    requires
        b.sound(),
    ensures
        b.after_outcome(outcome).batch.sound(),
{
    lemma_halted_sound(b, CancellationReason::FailFast);
}

pub(crate) proof fn lemma_preparation_sound(b: BatchView, i: int, result: PreparedView, cancelled: bool)
    requires
        b.sound(),
    ensures
        b.after_preparation(i, result, cancelled).batch.sound(),
{
    if b.is_busy(i) && !b.executing {
        match result {
            PreparedView::Ready(job) => {
                let after = b.readied(i, job);
                lemma_one_class(b.files, i, after.files[i]);
                assert forall|j: int| 0 <= j < after.files.len() implies #[trigger] after.file_sound(
                    j,
                ) by {
                    assert(b.file_sound(j));
                }
            },
            PreparedView::Terminal(reported) => {
                lemma_halted_sound(b, CancellationReason::User);
                let first = b.acknowledged(reported is Cancelled, cancelled).batch;
                assert(first.files[i] == b.files[i]);
                let outcome = if reported is Cancelled {
                    b.explained(cancelled)
                } else {
                    reported
                };
                lemma_settled_sound(first, i, outcome);
                lemma_after_outcome_sound(first.settled(i, outcome), outcome);
            },
        }
    }
}

pub(crate) proof fn lemma_execution_sound(
    b: BatchView,
    i: int,
    result: Result<JobReportView, RuntimeErrorView>,
    cancelled: bool,
)
    requires
        b.sound(),
    ensures
        b.after_execution(i, result, cancelled).batch.sound(),
{
    if b.is_busy(i) && b.executing {
        lemma_halted_sound(b, CancellationReason::User);
        let given_up = result matches Err(e) && error::is_cancellation(e);
        let first = b.acknowledged(given_up, cancelled).batch;
        assert(first.files[i] == b.files[i]);
        let outcome = b.conversion_outcome(result, cancelled);
        lemma_settled_sound(first, i, outcome);
        lemma_after_outcome_sound(first.settled(i, outcome), outcome);
    }
}

pub(crate) proof fn lemma_loss_sound(b: BatchView, i: int, message: Seq<char>)
    requires
        b.sound(),
    ensures
        b.after_loss(i, message).batch.sound(),
{
    if b.is_busy(i) {
        let outcome = b.lost_outcome(message);
        lemma_settled_sound(b, i, outcome);
        lemma_after_outcome_sound(b.settled(i, outcome), outcome);
    }
}

pub(crate) proof fn lemma_admitted_sound(b: BatchView, i: int)
    requires
        b.sound(),
        b.admissible() == Some(i),
    ensures
        b.admitted(i).batch.sound(),
        b.awaits(i),
{
    lemma_first_waiting(b, b.next);
    let after = b.admitted(i).batch;
    assert(b.file_sound(i));
    lemma_one_class(b.files, i, after.files[i]);
    assert forall|j: int| 0 <= j < after.files.len() implies #[trigger] after.file_sound(j) by {
        assert(b.file_sound(j));
        if b.next <= j < i {
            assert(!b.awaits(j));
        }
    }
}

pub(crate) proof fn lemma_withdrawn_sound(b: BatchView, reason: CancellationReason)
    requires
        b.sound(),
    ensures
        b.withdrawn(reason).batch.sound(),
{
    let after = b.withdrawn(reason).batch;
    assert forall|i: int| 0 <= i < b.files.len() implies (#[trigger] b.files[i]).status.busy()
        == after.files[i].status.busy() by {
        assert(b.file_sound(i));
    }
    lemma_same_classes(b.files, after.files);
    assert forall|i: int| 0 <= i < after.files.len() implies #[trigger] after.file_sound(i) by {
        assert(b.file_sound(i));
    }
}

pub(crate) proof fn lemma_destinations_sound(
    b: BatchView,
    destinations: Seq<Option<Result<Seq<u8>, FileFailureView>>>,
)
    requires
        b.sound(),
    ensures
        b.after_destinations(destinations).batch.sound(),
{
    let n = b.files.len() as int;
    let after = b.rejected_up_to(destinations, n);
    assert forall|i: int| 0 <= i < b.files.len() implies (#[trigger] b.files[i]).status.busy()
        == after.files[i].status.busy() by {
        assert(b.file_sound(i));
    }
    lemma_same_classes(b.files, after.files);
    assert forall|i: int| 0 <= i < after.files.len() implies #[trigger] after.file_sound(i) by {
        assert(b.file_sound(i));
    }
    lemma_withdrawn_sound(after, CancellationReason::FailFast);
}

pub(crate) proof fn lemma_launch_sound(b: BatchView)
    requires
        b.sound(),
    ensures
        b.after_launch().batch.sound(),
{
    if b.can_execute() {
        lemma_first_waiting(b, b.next);
        let after = b.after_launch().batch;
        lemma_no_active(b.files);
        assert forall|i: int| 0 <= i < after.files.len() implies #[trigger] after.file_sound(i) by {
            assert(b.file_sound(i));
            if i >= b.next {
                assert(!b.awaits(i));
            }
            assert(!b.files[i].status.busy());
        }
    }
}

pub(crate) proof fn lemma_no_active(files: Seq<FileStateView>)
    ensures
        batch::count_class(files, StatusClass::Active) == 0 ==> forall|i: int|
            0 <= i < files.len() ==> !(#[trigger] files[i]).status.busy(),
    decreases files.len(),
{
    if files.len() > 0 {
        lemma_no_active(files.drop_last());
        if batch::count_class(files, StatusClass::Active) == 0 {
            assert forall|i: int| 0 <= i < files.len() implies !(
            #[trigger] files[i]).status.busy() by {
                if i < files.len() - 1 {
                    assert(files.drop_last()[i] == files[i]);
                }
            }
        }
    }
}

pub(crate) proof fn lemma_progress_sound(b: BatchView, i: int, event: ProgressEvent)
    requires
        b.sound(),
    ensures
        b.after_progress(i, event).batch.sound(),
{
    let after = b.after_progress(i, event).batch;
    assert forall|j: int| 0 <= j < b.files.len() implies (#[trigger] b.files[j]).status.busy()
        == after.files[j].status.busy() by {}
    lemma_same_classes(b.files, after.files);
    assert forall|j: int| 0 <= j < after.files.len() implies #[trigger] after.file_sound(j) by {
        assert(b.file_sound(j));
    }
}

pub(crate) proof fn lemma_begun_sound(request: BatchRequestView)
    ensures
        BatchView::begun(request).sound(),
{
    let b = BatchView::begun(request);
    lemma_none_busy(b.files);
    assert forall|i: int| 0 <= i < b.files.len() implies #[trigger] b.file_sound(i) by {}
}

proof fn lemma_none_busy(files: Seq<FileStateView>)
    requires
        forall|i: int| 0 <= i < files.len() ==> !(#[trigger] files[i]).status.busy(),
    ensures
        batch::count_class(files, StatusClass::Active) == 0,
    decreases files.len(),
{
    if files.len() > 0 {
        let before = files.drop_last();
        assert forall|i: int| 0 <= i < before.len() implies !(
        #[trigger] before[i]).status.busy() by {
            assert(before[i] == files[i]);
        }
        lemma_none_busy(before);
        assert(!files[files.len() - 1].status.busy());
    }
}

/// The parts of a batch.
struct Desk {
    options: SchedulerOptions,
    state: MutableState,
    terminal: Vec<Option<FileOutcome>>,
    prepared: Vec<Option<JobPlan>>,
    next: usize,
    active: usize,
    executing: bool,
    stopped: bool,
    user_cancelled: bool,
    fail_fast: bool,
}

impl View for Desk {
    type V = BatchView;

    closed spec fn view(&self) -> BatchView {
        BatchView {
            options: self.options@,
            stage: self.state.stage,
            files: self.state.files.deep_view(),
            advancing_samples: self.state.advancing_samples,
            terminal: self.terminal.deep_view(),
            prepared: self.prepared.deep_view(),
            next: self.next as int,
            active: self.active as int,
            executing: self.executing,
            stopped: self.stopped,
            user_cancelled: self.user_cancelled,
            fail_fast: self.fail_fast,
        }
    }
}

fn add_event(events: &mut Vec<BatchEvent>, event: BatchEvent)
    ensures
        final(events).deep_view() == old(events).deep_view().push(event@),
{
    let ghost before = events.deep_view();
    events.push(event);
    proof {
        assert(events.deep_view() =~= before.push(event@));
    }
}

impl Desk {
    fn finished(&self, i: usize, status: FileStatus) -> (r: BatchEvent)
        requires
            i < self@.files.len(),
        ensures
            r@ == self@.finished(i as int, status),
    {
        proof {
            assert(self.state.files.deep_view()[i as int] == self.state.files@[i as int]@);
        }
        BatchEvent::FileFinished { id: JobId::new(i), path: self.state.files[i].path.clone(), status }
    }

    fn set_status(&mut self, i: usize, status: FileStatus)
        requires
            i < old(self)@.files.len(),
        ensures
            final(self)@ == (BatchView {
                files: old(self)@.files.update(
                    i as int,
                    FileStateView { status, ..old(self)@.files[i as int] },
                ),
                ..old(self)@
            }),
    {
        let ghost all = self.state.files.deep_view();
        proof {
            assert(all[i as int] == self.state.files@[i as int]@);
        }
        let mut file = self.state.files[i].clone();
        file.status = status;
        self.state.files.set(i, file);
        proof {
            assert(self.state.files.deep_view() =~= all.update(i as int, file@));
        }
    }

    fn set_terminal(&mut self, i: usize, outcome: FileOutcome)
        requires
            i < old(self)@.terminal.len(),
        ensures
            final(self)@ == (BatchView {
                terminal: old(self)@.terminal.update(i as int, Some(outcome@)),
                ..old(self)@
            }),
    {
        let ghost all = self.terminal.deep_view();
        self.terminal.set(i, Some(outcome));
        proof {
            assert(self.terminal.deep_view() =~= all.update(i as int, Some(outcome@)));
        }
    }

    fn clear_plan(&mut self, i: usize)
        requires
            i < old(self)@.prepared.len(),
        ensures
            final(self)@ == (BatchView {
                prepared: old(self)@.prepared.update(i as int, None),
                ..old(self)@
            }),
    {
        let ghost all = self.prepared.deep_view();
        self.prepared.set(i, None);
        proof {
            assert(self.prepared.deep_view() =~= all.update(i as int, None));
        }
    }

    fn has_plan(&self, i: usize) -> (r: bool)
        requires
            i < self@.prepared.len(),
        ensures
            r == (self@.prepared[i as int] is Some),
    {
        proof {
            assert(self.prepared.deep_view()[i as int] == self.prepared@[i as int].deep_view());
        }
        self.prepared[i].is_some()
    }

    fn has_outcome(&self, i: usize) -> (r: bool)
        requires
            i < self@.terminal.len(),
        ensures
            r == (self@.terminal[i as int] is Some),
    {
        proof {
            assert(self.terminal.deep_view()[i as int] == self.terminal@[i as int].deep_view());
        }
        self.terminal[i].is_some()
    }

    fn awaits(&self, i: usize) -> (r: bool)
        requires
            self@.sound(),
            i < self@.files.len(),
        ensures
            r == self@.awaits(i as int),
    {
        self.next <= i && (!self.executing || self.has_plan(i))
    }

    fn halt(&mut self, reason: CancellationReason, events: &mut Vec<BatchEvent>)
        requires
            old(self)@.sound(),
        ensures
            final(self)@ == old(self)@.halted(reason).batch,
            final(events).deep_view() == old(events).deep_view() + old(self)@.halted(
                reason,
            ).events,
    {
        let ghost b = self@;
        let ghost before = events.deep_view();
        let n: usize = self.state.files.len();
        let mut i: usize = 0;
        proof {
            assert(self.state.files.deep_view().len() == n);
            assert(b.drained_up_to(reason, 0).files =~= b.files);
            assert(b.drained_up_to(reason, 0).terminal =~= b.terminal);
            assert(b.drained_up_to(reason, 0).prepared =~= b.prepared);
            assert(before + b.drained_events(0) =~= before);
        }
        while i < n
            invariant
                b.sound(),
                n == b.files.len(),
                i <= n,
                self@ == b.drained_up_to(reason, i as int),
                events.deep_view() == before + b.drained_events(i as int),
            decreases n - i,
        {
            let waiting = self.next <= i && (!self.executing || self.has_plan(i));
            proof {
                assert(waiting == b.awaits(i as int));
            }
            if waiting {
                let event = self.finished(i, FileStatus::Cancelled);
                add_event(events, event);
                self.set_terminal(i, FileOutcome::Cancelled(reason));
                self.set_status(i, FileStatus::Cancelled);
                self.clear_plan(i);
                proof {
                    assert(events.deep_view() =~= before + b.drained_events(i + 1));
                }
            }
            proof {
                let next = b.drained_up_to(reason, i + 1);
                assert(self@.files =~= next.files);
                assert(self@.terminal =~= next.terminal);
                assert(self@.prepared =~= next.prepared);
            }
            i = i + 1;
        }
        self.next = n;
        self.stopped = true;
        match reason {
            CancellationReason::User => {
                self.user_cancelled = true;
            },
            CancellationReason::FailFast => {
                self.fail_fast = true;
            },
        }
    }

    fn settle(&mut self, i: usize, outcome: FileOutcome)
        requires
            old(self)@.sound(),
            old(self)@.is_busy(i as int),
        ensures
            final(self)@ == old(self)@.settled(i as int, outcome@),
    {
        let ghost b = self@;
        let ghost all = self.state.files.deep_view();
        proof {
            assert(all[i as int] == self.state.files@[i as int]@);
            lemma_no_active(b.files);
            assert(b.active > 0);
        }
        let status = status_for_outcome(&outcome);
        let mut file = self.state.files[i].clone();
        file.status = status;
        if self.executing {
            file.eta_us = None;
            match status {
                FileStatus::Succeeded => {
                    file.position_us = file.duration_us;
                },
                _ => {},
            }
        }
        self.state.files.set(i, file);
        proof {
            assert(self.state.files.deep_view() =~= all.update(i as int, file@));
        }
        self.set_terminal(i, outcome);
        self.active = self.active - 1;
    }

    fn react(&mut self, failed: bool, events: &mut Vec<BatchEvent>)
        requires
            old(self)@.sound(),
        ensures
            ({
                let step = if failed && old(self)@.options.failure_policy
                    == FailurePolicy::FailFast {
                    old(self)@.halted(CancellationReason::FailFast)
                } else {
                    Step { batch: old(self)@, events: seq![] }
                };
                &&& final(self)@ == step.batch
                &&& final(events).deep_view() == old(events).deep_view() + step.events
            }),
    {
        let fast = match self.options.failure_policy() {
            FailurePolicy::FailFast => true,
            FailurePolicy::Continue => false,
        };
        if failed && fast {
            self.halt(CancellationReason::FailFast, events);
        } else {
            proof {
                assert(events.deep_view() + seq![] =~= events.deep_view());
            }
        }
    }

    fn explain(&self, cancelled: bool) -> (r: FileOutcome)
        ensures
            r@ == self@.explained(cancelled),
    {
        if cancelled {
            FileOutcome::Cancelled(CancellationReason::User)
        } else if self.fail_fast {
            FileOutcome::Cancelled(CancellationReason::FailFast)
        } else {
            FileOutcome::Failed(
                FileFailure::new(
                    FailureStage::Internal,
                    "backend cancelled without a scheduler cancellation".to_owned(),
                ),
            )
        }
    }

    fn make_ready(&mut self, i: usize, plan: JobPlan)
        requires
            old(self)@.sound(),
            old(self)@.is_busy(i as int),
        ensures
            final(self)@ == old(self)@.readied(i as int, plan@),
    {
        let ghost b = self@;
        let ghost all = self.state.files.deep_view();
        let ghost plans = self.prepared.deep_view();
        proof {
            assert(all[i as int] == self.state.files@[i as int]@);
            lemma_no_active(b.files);
            assert(b.active > 0);
        }
        let mut file = self.state.files[i].clone();
        file.duration_us = match plan.duration() {
            Some(d) => Some(d.get()),
            None => None,
        };
        file.will_execute = true;
        file.status = FileStatus::Ready;
        self.state.files.set(i, file);
        self.prepared.set(i, Some(plan));
        self.active = self.active - 1;
        proof {
            assert(self.state.files.deep_view() =~= all.update(i as int, file@));
            assert(self.prepared.deep_view() =~= plans.update(i as int, Some(plan@)));
        }
    }

    fn end_preparation(
        &mut self,
        i: usize,
        reported: FileOutcome,
        cancelled: bool,
        events: &mut Vec<BatchEvent>,
    )
        requires
            old(self)@.sound(),
            old(self)@.is_busy(i as int),
            !old(self)@.executing,
        ensures
            final(self)@ == old(self)@.after_preparation(
                i as int,
                PreparedView::Terminal(reported@),
                cancelled,
            ).batch,
            final(events).deep_view() == old(events).deep_view() + old(self)@.after_preparation(
                i as int,
                PreparedView::Terminal(reported@),
                cancelled,
            ).events,
    {
        let ghost b = self@;
        let ghost told = events.deep_view();
        let ghost step = b.after_preparation(
            i as int,
            PreparedView::Terminal(reported@),
            cancelled,
        );
        proof {
            lemma_halted_sound(b, CancellationReason::User);
            assert(self.state.files.deep_view()[i as int] == self.state.files@[i as int]@);
        }
        let path = self.state.files[i].path.clone();
        let is_cancellation = match &reported {
            FileOutcome::Cancelled(_) => true,
            _ => false,
        };
        let outcome = if is_cancellation {
            self.explain(cancelled)
        } else {
            reported
        };
        if is_cancellation && cancelled {
            self.halt(CancellationReason::User, events);
        }
        let ghost first = b.acknowledged(is_cancellation, cancelled);
        let ghost settled = first.batch.settled(i as int, outcome@);
        proof {
            assert(self@ == first.batch);
            assert(events.deep_view() =~= told + first.events);
            assert(first.batch.files[i as int] == b.files[i as int]);
            lemma_settled_sound(first.batch, i as int, outcome@);
        }
        let status = status_for_outcome(&outcome);
        let failed = match &outcome {
            FileOutcome::Failed(_) => true,
            _ => false,
        };
        self.settle(i, outcome);
        self.react(failed, events);
        proof {
            assert(self@ == settled.after_outcome(outcome@).batch);
        }
        add_event(
            events,
            BatchEvent::FilePrepared { id: JobId::new(i), path: path.clone(), status },
        );
        add_event(events, BatchEvent::FileFinished { id: JobId::new(i), path, status });
        proof {
            assert(events.deep_view() =~= told + step.events);
        }
    }

    fn withdraw(&mut self, reason: CancellationReason, events: &mut Vec<BatchEvent>)
        requires
            old(self)@.sound(),
        ensures
            final(self)@ == old(self)@.withdrawn(reason).batch,
            final(events).deep_view() == old(events).deep_view() + old(self)@.withdrawn(
                reason,
            ).events,
    {
        let ghost b = self@;
        let ghost before = events.deep_view();
        let n: usize = self.state.files.len();
        let mut i: usize = 0;
        proof {
            assert(self.state.files.deep_view().len() == n);
            assert(b.withdrawn_up_to(reason, 0).files =~= b.files);
            assert(b.withdrawn_up_to(reason, 0).terminal =~= b.terminal);
            assert(b.withdrawn_up_to(reason, 0).prepared =~= b.prepared);
            assert(before + b.withdrawn_events(0) =~= before);
        }
        while i < n
            invariant
                b.sound(),
                n == b.files.len(),
                i <= n,
                self@ == b.withdrawn_up_to(reason, i as int),
                events.deep_view() == before + b.withdrawn_events(i as int),
            decreases n - i,
        {
            let ready = self.has_plan(i) && !self.has_outcome(i);
            proof {
                assert(ready == b.is_ready(i as int));
            }
            if ready {
                let event = self.finished(i, FileStatus::Cancelled);
                add_event(events, event);
                self.set_terminal(i, FileOutcome::Cancelled(reason));
                self.set_status(i, FileStatus::Cancelled);
                proof {
                    assert(events.deep_view() =~= before + b.withdrawn_events(i + 1));
                }
            }
            self.clear_plan(i);
            proof {
                let next = b.withdrawn_up_to(reason, i + 1);
                assert(self@.files =~= next.files);
                assert(self@.terminal =~= next.terminal);
                assert(self@.prepared =~= next.prepared);
            }
            i = i + 1;
        }
    }

    fn count_ready(&self) -> (r: usize)
        requires
            self@.sound(),
        ensures
            r == self@.ready_count(self@.files.len() as int),
    {
        let n: usize = self.state.files.len();
        let mut count: usize = 0;
        let mut i: usize = 0;
        proof {
            assert(self.state.files.deep_view().len() == n);
        }
        while i < n
            invariant
                self@.sound(),
                n == self@.files.len(),
                i <= n,
                count <= i,
                count == self@.ready_count(i as int),
            decreases n - i,
        {
            if self.has_plan(i) {
                count = count + 1;
            }
            i = i + 1;
        }
        count
    }

    fn find_waiting(&self) -> (r: Option<usize>)
        requires
            self@.sound(),
        ensures
            match r {
                Some(i) => i < usize::MAX && self@.first_waiting(self@.next) == Some(i as int),
                None => self@.first_waiting(self@.next) is None,
            },
    {
        let n: usize = self.state.files.len();
        let mut i: usize = self.next;
        proof {
            assert(self.state.files.deep_view().len() == n);
        }
        while i < n
            invariant
                self@.sound(),
                n == self@.files.len(),
                0 <= i <= n,
                self@.first_waiting(self@.next) == self@.first_waiting(i as int),
            decreases n - i,
        {
            if self.awaits(i) {
                return Some(i);
            }
            i = i + 1;
        }
        None
    }

    fn any_failure(&self) -> (r: bool)
        ensures
            r == self@.has_failure(),
    {
        let ghost all = self.terminal.deep_view();
        let mut i: usize = 0;
        while i < self.terminal.len()
            invariant
                all == self.terminal.deep_view(),
                i <= self.terminal@.len(),
                forall|j: int| 0 <= j < i ==> !failed(#[trigger] all[j]),
            decreases self.terminal@.len() - i,
        {
            proof {
                assert(all[i as int] == self.terminal@[i as int].deep_view());
            }
            match &self.terminal[i] {
                Some(FileOutcome::Failed(_)) => {
                    proof {
                        assert(failed(self@.terminal[i as int]));
                    }
                    return true;
                },
                _ => {},
            }
            i = i + 1;
        }
        proof {
            assert(all.len() == self.terminal@.len());
        }
        false
    }
}

/// Where the output of a file goes, or why that is not known; nothing for a file that is not ready.
pub type Destination = Option<Result<FilePath, FileFailure>>;

/// What is told of a destination.
pub open spec fn destination_told(destination: Destination) -> Option<
    Result<Seq<u8>, FileFailureView>,
> {
    match destination {
        Some(Ok(p)) => Some(Ok(p@)),
        Some(Err(f)) => Some(Err(f@)),
        None => None,
    }
}

/// What is told of destinations.
pub open spec fn destinations_told(destinations: Seq<Destination>) -> Seq<
    Option<Result<Seq<u8>, FileFailureView>>,
> {
    Seq::new(destinations.len(), |i: int| destination_told(destinations[i]))
}

/// Why the destination of an output cannot be looked up, given where the output goes as an absolute
/// path.
pub open spec fn destination_fault(absolute: Seq<u8>) -> Option<FileFailureView> {
    if path::parent(absolute) is None {
        Some(prepare::failure(FailureStage::Conflict, "output has no parent directory"@))
    } else if path::file_name(absolute) is None {
        Some(prepare::failure(FailureStage::Conflict, "output has no file name"@))
    } else {
        None
    }
}

/// The directory and the name by which the destination of an output is looked up, given where the
/// output goes as an absolute path.
pub fn destination_parts(absolute: &FilePath) -> (r: Result<(FilePath, FilePath), FileFailure>)
    ensures
        match r {
            Ok(parts) => destination_fault(absolute@) is None && path::parent(absolute@) == Some(
                parts.0@,
            ) && path::file_name(absolute@) == Some(parts.1@),
            Err(f) => destination_fault(absolute@) == Some(f@),
        },
{
    let parent = match absolute.parent() {
        Some(p) => p,
        None => {
            return Err(
                FileFailure::new(
                    FailureStage::Conflict,
                    "output has no parent directory".to_owned(),
                ),
            );
        },
    };
    match absolute.file_name() {
        Some(name) => Ok((parent, name)),
        None => Err(
            FileFailure::new(FailureStage::Conflict, "output has no file name".to_owned()),
        ),
    }
}

/// How many progress reports are kept for a batch that works on this many files at once.
pub fn progress_capacity(max_concurrency: usize) -> (r: usize)
    ensures
        r == if max_concurrency < 1 {
            32
        } else if max_concurrency > 64 {
            2_048
        } else {
            32 * max_concurrency
        },
{
    if max_concurrency < 1 {
        32
    } else if max_concurrency > 64 {
        2_048
    } else {
        32 * max_concurrency
    }
}

fn destinations_agree(destinations: &Vec<Destination>, i: usize, j: usize) -> (r: bool)
    ensures
        r == same_destination(destinations_told(destinations@), i as int, j as int),
{
    if i >= destinations.len() || j >= destinations.len() {
        return false;
    }
    match (&destinations[i], &destinations[j]) {
        (Some(Ok(a)), Some(Ok(b))) => a.same(b),
        _ => false,
    }
}

/// A file that was admitted, with its plan where it is to be converted.
pub struct Admission {
    /// The place of the file.
    pub index: usize,
    /// Its plan.
    pub plan: Option<JobPlan>,
}

/// A batch that is being worked on.
pub struct Batch {
    desk: Desk,
}

impl View for Batch {
    type V = BatchView;

    closed spec fn view(&self) -> BatchView {
        self.desk@
    }
}

impl Batch {
    /// What every batch keeps.
    #[verifier::type_invariant]
    pub closed spec fn is_sound(self) -> bool {
        self@.sound()
    }

    /// A batch, and what there is to report of its beginning.
    pub fn start(request: &BatchRequest) -> (r: (Batch, Vec<BatchEvent>))
        ensures
            r.0@ == BatchView::begun(request@),
            r.1.deep_view() == seq![
                BatchEventView::BatchStarted {
                    total: request@.files.len() as usize,
                    concurrency: request@.options.max_concurrency,
                    failure_policy: request@.options.failure_policy,
                },
                BatchEventView::PreparationStarted,
            ],
    {
        let state = MutableState::new(request.files());
        let n: usize = request.len();
        let mut terminal: Vec<Option<FileOutcome>> = Vec::new();
        let mut prepared: Vec<Option<JobPlan>> = Vec::new();
        let mut i: usize = 0;
        let ghost nothing = BatchView::begun(request@);
        proof {
            assert(terminal.deep_view() =~= nothing.terminal.take(0));
            assert(prepared.deep_view() =~= nothing.prepared.take(0));
        }
        while i < n
            invariant
                nothing == BatchView::begun(request@),
                n == request@.files.len(),
                i <= n,
                terminal.deep_view() == nothing.terminal.take(i as int),
                prepared.deep_view() == nothing.prepared.take(i as int),
            decreases n - i,
        {
            let ghost t = terminal.deep_view();
            let ghost p = prepared.deep_view();
            terminal.push(None);
            prepared.push(None);
            proof {
                assert(terminal.deep_view() =~= t.push(None));
                assert(prepared.deep_view() =~= p.push(None));
                assert(terminal.deep_view() =~= nothing.terminal.take(i + 1));
                assert(prepared.deep_view() =~= nothing.prepared.take(i + 1));
            }
            i = i + 1;
        }
        let options = request.options();
        let mut events: Vec<BatchEvent> = Vec::new();
        events.push(
            BatchEvent::BatchStarted {
                total: n,
                concurrency: options.max_concurrency(),
                failure_policy: options.failure_policy(),
            },
        );
        events.push(BatchEvent::PreparationStarted);
        let desk = Desk {
            options,
            state,
            terminal,
            prepared,
            next: 0,
            active: 0,
            executing: false,
            stopped: false,
            user_cancelled: false,
            fail_fast: false,
        };
        proof {
            assert(nothing.terminal.take(n as int) =~= nothing.terminal);
            assert(nothing.prepared.take(n as int) =~= nothing.prepared);
            lemma_begun_sound(request@);
            assert(events.deep_view() =~= seq![
                BatchEventView::BatchStarted {
                    total: request@.files.len() as usize,
                    concurrency: request@.options.max_concurrency,
                    failure_policy: request@.options.failure_policy,
                },
                BatchEventView::PreparationStarted,
            ]);
        }
        (Batch { desk }, events)
    }

    /// How far the batch is, given for how long files are being converted.
    pub fn snapshot(&self, elapsed_us: Option<u128>) -> (r: BatchSnapshot)
        ensures
            r@ == batch::snapshot_of(
                self@.stage,
                self@.files,
                self@.advancing_samples,
                elapsed_us,
            ),
    {
        self.desk.state.snapshot(elapsed_us)
    }

    /// How many files are being worked on.
    pub fn active(&self) -> (r: usize)
        ensures
            r == self@.active,
            r <= self@.options.max_concurrency,
    {
        proof {
            use_type_invariant(self);
        }
        self.desk.active
    }

    /// Whether no more files are admitted, so that those at work are to be cancelled.
    pub fn is_stopped(&self) -> (r: bool)
        ensures
            r == self@.stopped,
    {
        self.desk.stopped
    }

    /// The plan of a ready file.
    pub fn plan(&self, i: usize) -> (r: Option<&JobPlan>)
        ensures
            match r {
                Some(p) => i < self@.prepared.len() && self@.prepared[i as int] == Some(p@),
                None => i >= self@.prepared.len() || self@.prepared[i as int] is None,
            },
    {
        let ghost all = self.desk.prepared.deep_view();
        if i < self.desk.prepared.len() {
            proof {
                assert(all[i as int] == self.desk.prepared@[i as int].deep_view());
            }
            self.desk.prepared[i].as_ref()
        } else {
            proof {
                assert(all.len() == self.desk.prepared@.len());
            }
            None
        }
    }

    /// Takes the user's cancellation: files that wait are cancelled.
    pub fn cancel(self) -> (r: (Batch, Vec<BatchEvent>))
        ensures
            r.0@ == self@.cancelled().batch,
            r.1.deep_view() == self@.cancelled().events,
    {
        proof {
            use_type_invariant(&self);
            lemma_halted_sound(self@, CancellationReason::User);
        }
        let ghost b = self@;
        let mut desk = self.desk;
        let mut events: Vec<BatchEvent> = Vec::new();
        proof {
            assert(events.deep_view() =~= seq![]);
        }
        if !desk.user_cancelled {
            desk.halt(CancellationReason::User, &mut events);
            proof {
                assert(events.deep_view() =~= b.cancelled().events);
            }
        }
        (Batch { desk }, events)
    }

    /// Admits the next file, where one may be admitted.
    pub fn take_next(self) -> (r: (Batch, Option<Admission>, Vec<BatchEvent>))
        ensures
            match self@.admissible() {
                Some(i) => r.0@ == self@.admitted(i).batch && r.2.deep_view() == self@.admitted(
                    i,
                ).events && (r.1 matches Some(a) && a.index == i && a.plan.deep_view()
                    == if self@.executing {
                    self@.prepared[i]
                } else {
                    None
                }),
                None => r.0@ == self@ && r.1 is None && r.2.deep_view() == Seq::<
                    BatchEventView,
                >::empty(),
            },
    {
        proof {
            use_type_invariant(&self);
        }
        let ghost b = self@;
        let mut desk = self.desk;
        let mut events: Vec<BatchEvent> = Vec::new();
        proof {
            assert(events.deep_view() =~= seq![]);
        }
        if desk.stopped || desk.active >= desk.options.max_concurrency() {
            return (Batch { desk }, None, events);
        }
        let index = match desk.find_waiting() {
            Some(i) => i,
            None => {
                return (Batch { desk }, None, events);
            },
        };
        proof {
            lemma_admitted_sound(b, index as int);
            assert(b.file_sound(index as int));
            assert(desk.prepared.deep_view()[index as int]
                == desk.prepared@[index as int].deep_view());
        }
        let status = if desk.executing {
            FileStatus::Running
        } else {
            FileStatus::Preparing
        };
        let plan = match &desk.prepared[index] {
            Some(p) => Some(p.clone()),
            None => None,
        };
        if !desk.executing {
            proof {
                assert(desk.state.files.deep_view()[index as int]
                    == desk.state.files@[index as int]@);
            }
            events.push(
                BatchEvent::FileStarted {
                    id: JobId::new(index),
                    path: desk.state.files[index].path.clone(),
                },
            );
        }
        desk.set_status(index, status);
        desk.clear_plan(index);
        desk.next = index + 1;
        desk.active = desk.active + 1;
        proof {
            assert(events.deep_view() =~= b.admitted(index as int).events);
        }
        (Batch { desk }, Some(Admission { index, plan }), events)
    }

    /// Takes what the preparation of a file came to, given whether the user has cancelled by now.
    pub fn prepared(self, index: usize, result: PreparedResult, cancelled: bool) -> (r: (
        Batch,
        Vec<BatchEvent>,
    ))
        ensures
            r.0@ == self@.after_preparation(index as int, result@, cancelled).batch,
            r.1.deep_view() == self@.after_preparation(index as int, result@, cancelled).events,
    {
        proof {
            use_type_invariant(&self);
            lemma_preparation_sound(self@, index as int, result@, cancelled);
            lemma_halted_sound(self@, CancellationReason::User);
        }
        let ghost b = self@;
        let ghost step = b.after_preparation(index as int, result@, cancelled);
        let mut desk = self.desk;
        let mut events: Vec<BatchEvent> = Vec::new();
        proof {
            assert(events.deep_view() =~= seq![]);
            assert(desk.state.files.deep_view().len() == desk.state.files@.len());
        }
        if desk.executing || index >= desk.state.files.len() {
            return (Batch { desk }, events);
        }
        proof {
            assert(desk.state.files.deep_view()[index as int] == desk.state.files@[index as int]@);
        }
        let busy = match desk.state.files[index].status {
            FileStatus::Preparing => true,
            FileStatus::Running => true,
            _ => false,
        };
        if !busy {
            return (Batch { desk }, events);
        }
        let path = desk.state.files[index].path.clone();
        match result {
            PreparedResult::Ready(plan) => {
                desk.make_ready(index, plan);
                add_event(
                    &mut events,
                    BatchEvent::FilePrepared {
                        id: JobId::new(index),
                        path,
                        status: FileStatus::Ready,
                    },
                );
                proof {
                    assert(events.deep_view() =~= step.events);
                }
            },
            PreparedResult::Terminal(reported) => {
                desk.end_preparation(index, reported, cancelled, &mut events);
                proof {
                    assert(events.deep_view() =~= step.events);
                }
            },
        }
        (Batch { desk }, events)
    }

    /// Takes that the task of a file did not finish.
    pub fn lost(self, index: usize, message: String) -> (r: (Batch, Vec<BatchEvent>))
        ensures
            r.0@ == self@.after_loss(index as int, message@).batch,
            r.1.deep_view() == self@.after_loss(index as int, message@).events,
    {
        proof {
            use_type_invariant(&self);
            lemma_loss_sound(self@, index as int, message@);
        }
        let ghost b = self@;
        let ghost step = b.after_loss(index as int, message@);
        let mut desk = self.desk;
        let mut events: Vec<BatchEvent> = Vec::new();
        proof {
            assert(events.deep_view() =~= seq![]);
            assert(desk.state.files.deep_view().len() == desk.state.files@.len());
        }
        if index >= desk.state.files.len() {
            return (Batch { desk }, events);
        }
        proof {
            assert(desk.state.files.deep_view()[index as int] == desk.state.files@[index as int]@);
        }
        let busy = match desk.state.files[index].status {
            FileStatus::Preparing => true,
            FileStatus::Running => true,
            _ => false,
        };
        if !busy {
            return (Batch { desk }, events);
        }
        let outcome = if desk.user_cancelled {
            FileOutcome::Cancelled(CancellationReason::User)
        } else if desk.fail_fast {
            FileOutcome::Cancelled(CancellationReason::FailFast)
        } else {
            FileOutcome::Failed(FileFailure::new(FailureStage::Internal, message))
        };
        let status = status_for_outcome(&outcome);
        let failed = match &outcome {
            FileOutcome::Failed(_) => true,
            _ => false,
        };
        let event = desk.finished(index, status);
        add_event(&mut events, event);
        proof {
            lemma_settled_sound(b, index as int, outcome@);
        }
        desk.settle(index, outcome);
        desk.react(failed, &mut events);
        proof {
            assert(events.deep_view() =~= step.events);
        }
        (Batch { desk }, events)
    }

    /// Ends the preparations.
    pub fn end_preparations(self) -> (r: (Batch, Vec<BatchEvent>))
        ensures
            r.0@ == self@.after_preparations().batch,
            r.1.deep_view() == self@.after_preparations().events,
    {
        proof {
            use_type_invariant(&self);
            lemma_withdrawn_sound(self@, CancellationReason::User);
            lemma_withdrawn_sound(self@, CancellationReason::FailFast);
        }
        let ghost b = self@;
        let mut desk = self.desk;
        let mut events: Vec<BatchEvent> = Vec::new();
        proof {
            assert(events.deep_view() =~= seq![]);
        }
        if desk.user_cancelled {
            desk.withdraw(CancellationReason::User, &mut events);
        } else if desk.fail_fast {
            desk.withdraw(CancellationReason::FailFast, &mut events);
        }
        proof {
            assert(events.deep_view() =~= b.after_preparations().events);
        }
        (Batch { desk }, events)
    }

    fn rejection(&self, destinations: &Vec<Destination>, i: usize) -> (r: Option<FileFailure>)
        requires
            i < self@.files.len(),
        ensures
            match r {
                Some(f) => self@.rejection(destinations_told(destinations@), i as int) == Some(f@),
                None => self@.rejection(destinations_told(destinations@), i as int) is None,
            },
    {
        proof {
            use_type_invariant(self);
        }
        let ghost d = destinations_told(destinations@);
        let n: usize = self.desk.state.files.len();
        proof {
            assert(self.desk.state.files.deep_view().len() == n);
        }
        if !self.desk.has_plan(i) || self.desk.has_outcome(i) || i >= destinations.len() {
            return None;
        }
        match &destinations[i] {
            Some(Err(f)) => Some(f.clone()),
            Some(Ok(_)) => {
                let mut j: usize = 0;
                while j < n
                    invariant
                        self@.sound(),
                        n == self@.files.len(),
                        d == destinations_told(destinations@),
                        i < n,
                        j <= n,
                        forall|k: int|
                            0 <= k < j && k != i && #[trigger] self@.is_ready(k)
                                ==> !same_destination(d, i as int, k),
                        self@.is_ready(i as int),
                        i < destinations@.len(),
                        d[i as int] matches Some(Ok(_)),
                    decreases n - j,
                {
                    if j != i && self.desk.has_plan(j) && !self.desk.has_outcome(j)
                        && destinations_agree(destinations, i, j) {
                        proof {
                            assert(self@.is_ready(j as int));
                            assert(self@.is_shared(d, i as int));
                        }
                        return Some(
                            FileFailure::new(
                                FailureStage::Conflict,
                                "multiple inputs resolve to the same output path".to_owned(),
                            ),
                        );
                    }
                    j = j + 1;
                }
                None
            },
            None => None,
        }
    }

    /// Takes the destinations of the ready files: files with the same destination fail.
    pub fn reject_duplicate_destinations(self, destinations: &Vec<Destination>) -> (r: (
        Batch,
        Vec<BatchEvent>,
    ))
        ensures
            r.0@ == self@.after_destinations(destinations_told(destinations@)).batch,
            r.1.deep_view() == self@.after_destinations(destinations_told(destinations@)).events,
    {
        proof {
            use_type_invariant(&self);
        }
        let ghost b = self@;
        let ghost d = destinations_told(destinations@);
        let mut events: Vec<BatchEvent> = Vec::new();
        proof {
            assert(events.deep_view() =~= seq![]);
            lemma_destinations_sound(b, d);
        }
        if self.desk.user_cancelled || self.desk.options.dry_run() || self.desk.executing {
            return (self, events);
        }
        let n: usize = self.desk.state.files.len();
        let mut verdicts: Vec<Option<FileFailure>> = Vec::new();
        let mut k: usize = 0;
        proof {
            assert(self.desk.state.files.deep_view().len() == n);
        }
        while k < n
            invariant
                b == self@,
                b.sound(),
                d == destinations_told(destinations@),
                n == b.files.len(),
                k <= n,
                verdicts@.len() == k,
                forall|j: int|
                    0 <= j < k ==> (#[trigger] verdicts@[j]).deep_view() == b.rejection(d, j),
            decreases n - k,
        {
            let verdict = self.rejection(destinations, k);
            verdicts.push(verdict);
            k = k + 1;
        }
        let mut desk = self.desk;
        let mut i: usize = 0;
        proof {
            assert(b.rejected_up_to(d, 0).files =~= b.files);
            assert(b.rejected_up_to(d, 0).terminal =~= b.terminal);
            assert(b.rejected_up_to(d, 0).prepared =~= b.prepared);
        }
        while i < n
            invariant
                b.sound(),
                n == b.files.len(),
                i <= n,
                verdicts@.len() == n,
                forall|j: int|
                    0 <= j < n ==> (#[trigger] verdicts@[j]).deep_view() == b.rejection(d, j),
                desk@ == b.rejected_up_to(d, i as int),
                events.deep_view() == b.rejected_events(d, i as int),
            decreases n - i,
        {
            proof {
                assert(verdicts@[i as int].deep_view() == b.rejection(d, i as int));
            }
            match &verdicts[i] {
                Some(f) => {
                    let event = desk.finished(i, FileStatus::Failed);
                    add_event(&mut events, event);
                    desk.set_terminal(i, FileOutcome::Failed(f.clone()));
                    desk.set_status(i, FileStatus::Failed);
                    desk.clear_plan(i);
                },
                None => {},
            }
            proof {
                let next = b.rejected_up_to(d, i + 1);
                assert(desk@.files =~= next.files);
                assert(desk@.terminal =~= next.terminal);
                assert(desk@.prepared =~= next.prepared);
                assert(events.deep_view() =~= b.rejected_events(d, i + 1));
            }
            i = i + 1;
        }
        let fast = match desk.options.failure_policy() {
            FailurePolicy::FailFast => true,
            FailurePolicy::Continue => false,
        };
        if fast && desk.any_failure() {
            proof {
                lemma_rejected_sound(b, d);
            }
            desk.withdraw(CancellationReason::FailFast, &mut events);
        }
        proof {
            assert(events.deep_view() =~= b.after_destinations(d).events);
        }
        (Batch { desk }, events)
    }

    /// Begins the conversions, where files are ready.
    pub fn launch(self) -> (r: (Batch, bool, Vec<BatchEvent>))
        ensures
            r.0@ == self@.after_launch().batch,
            r.1 == self@.can_execute(),
            r.2.deep_view() == self@.after_launch().events,
    {
        proof {
            use_type_invariant(&self);
            lemma_launch_sound(self@);
        }
        let ghost b = self@;
        let mut desk = self.desk;
        let mut events: Vec<BatchEvent> = Vec::new();
        proof {
            assert(events.deep_view() =~= seq![]);
        }
        let ready: usize = desk.count_ready();
        let idle = desk.active == 0 && desk.find_waiting().is_none();
        if desk.user_cancelled || desk.options.dry_run() || desk.executing || !idle || ready == 0 {
            return (Batch { desk }, false, events);
        }
        desk.state.stage = BatchStage::Executing;
        desk.executing = true;
        desk.next = 0;
        desk.stopped = false;
        desk.fail_fast = false;
        add_event(&mut events, BatchEvent::ExecutionStarted { ready });
        proof {
            assert(events.deep_view() =~= b.after_launch().events);
        }
        (Batch { desk }, true, events)
    }

    /// Takes a progress report of a file.
    pub fn progress(self, index: usize, event: ProgressEvent) -> (r: (Batch, Vec<BatchEvent>))
        ensures
            r.0@ == self@.after_progress(index as int, event).batch,
            r.1.deep_view() == self@.after_progress(index as int, event).events,
    {
        proof {
            use_type_invariant(&self);
            lemma_progress_sound(self@, index as int, event);
        }
        let ghost b = self@;
        let mut desk = self.desk;
        let mut events: Vec<BatchEvent> = Vec::new();
        proof {
            assert(events.deep_view() =~= seq![]);
            assert(desk.state.files.deep_view().len() == desk.state.files@.len());
        }
        let record: ProgressSnapshot = match event {
            ProgressEvent::Started => {
                return (Batch { desk }, events);
            },
            ProgressEvent::Advanced(p) => p,
            ProgressEvent::Finished(p) => p,
        };
        if index >= desk.state.files.len() {
            return (Batch { desk }, events);
        }
        proof {
            assert(desk.state.files.deep_view()[index as int] == desk.state.files@[index as int]@);
        }
        let path = desk.state.files[index].path.clone();
        let mut state = desk.state;
        state.update_progress(index, &record);
        desk.state = state;
        add_event(
            &mut events,
            BatchEvent::FileProgress { id: JobId::new(index), path, progress: record },
        );
        proof {
            assert(events.deep_view() =~= b.after_progress(index as int, event).events);
        }
        (Batch { desk }, events)
    }

    /// Takes what the conversion of a file came to, given whether the user has cancelled by now.
    pub fn executed(
        self,
        index: usize,
        result: Result<JobReport, RuntimeError>,
        cancelled: bool,
    ) -> (r: (Batch, Vec<BatchEvent>))
        ensures
            r.0@ == self@.after_execution(index as int, result_told(result), cancelled).batch,
            r.1.deep_view() == self@.after_execution(
                index as int,
                result_told(result),
                cancelled,
            ).events,
    {
        proof {
            use_type_invariant(&self);
            lemma_execution_sound(self@, index as int, result_told(result), cancelled);
            lemma_halted_sound(self@, CancellationReason::User);
        }
        let ghost b = self@;
        let ghost step = b.after_execution(index as int, result_told(result), cancelled);
        let mut desk = self.desk;
        let mut events: Vec<BatchEvent> = Vec::new();
        proof {
            assert(events.deep_view() =~= seq![]);
            assert(desk.state.files.deep_view().len() == desk.state.files@.len());
        }
        if !desk.executing || index >= desk.state.files.len() {
            return (Batch { desk }, events);
        }
        proof {
            assert(desk.state.files.deep_view()[index as int] == desk.state.files@[index as int]@);
        }
        let busy = match desk.state.files[index].status {
            FileStatus::Preparing => true,
            FileStatus::Running => true,
            _ => false,
        };
        if !busy {
            return (Batch { desk }, events);
        }
        let given_up = match &result {
            Ok(_) => false,
            Err(e) => runtime_error_cancelled(e),
        };
        let outcome = match result {
            Ok(report) => FileOutcome::Succeeded(report),
            Err(e) => if given_up {
                desk.explain(cancelled)
            } else {
                FileOutcome::Failed(FileFailure::new(FailureStage::Execute, e.message()))
            },
        };
        if given_up && cancelled {
            desk.halt(CancellationReason::User, &mut events);
        }
        let ghost first = b.acknowledged(given_up, cancelled);
        proof {
            assert(desk@ == first.batch);
            assert(events.deep_view() =~= first.events);
            assert(first.batch.files[index as int] == b.files[index as int]);
            lemma_settled_sound(first.batch, index as int, outcome@);
        }
        let status = status_for_outcome(&outcome);
        let failed = match &outcome {
            FileOutcome::Failed(_) => true,
            _ => false,
        };
        let event = desk.finished(index, status);
        add_event(&mut events, event);
        desk.settle(index, outcome);
        desk.react(failed, &mut events);
        proof {
            assert(events.deep_view() =~= step.events);
        }
        (Batch { desk }, events)
    }

    /// What became of the batch, how far it is in the end, and what there is to report of it.
    pub fn finish(self) -> (r: (BatchReport, BatchSnapshot, BatchEvent))
        ensures
            r.0@ == self@.report(),
            r.1@ == batch::snapshot_of(
                self@.final_stage(),
                self@.files,
                self@.advancing_samples,
                None,
            ),
            r.2@ == if self@.user_cancelled {
                BatchEventView::BatchCancelled
            } else {
                BatchEventView::BatchFinished
            },
    {
        proof {
            use_type_invariant(&self);
        }
        let ghost b = self@;
        let mut desk = self.desk;
        let n: usize = desk.state.files.len();
        let mut results: Vec<FileResult> = Vec::new();
        let mut i: usize = 0;
        proof {
            assert(desk.state.files.deep_view().len() == n);
            assert(results.deep_view() =~= b.report().results.take(0));
        }
        while i < n
            invariant
                b == desk@,
                b.sound(),
                n == b.files.len(),
                i <= n,
                results.deep_view() == b.report().results.take(i as int),
            decreases n - i,
        {
            let ghost before = results.deep_view();
            proof {
                assert(desk.state.files.deep_view()[i as int] == desk.state.files@[i as int]@);
                assert(desk.terminal.deep_view()[i as int] == desk.terminal@[i as int].deep_view());
                assert(desk.terminal.deep_view().len() == desk.terminal@.len());
            }
            let outcome = match &desk.terminal[i] {
                Some(o) => o.clone(),
                None => FileOutcome::Failed(
                    FileFailure::new(
                        FailureStage::Internal,
                        "scheduler omitted a terminal file result".to_owned(),
                    ),
                ),
            };
            let result = FileResult::new(
                JobId::new(i),
                desk.state.files[i].path.clone(),
                outcome,
            );
            results.push(result);
            proof {
                assert(result@ == b.result_of(i as int));
                assert(results.deep_view() =~= before.push(result@));
                assert(results.deep_view() =~= b.report().results.take(i + 1));
            }
            i = i + 1;
        }
        proof {
            assert(b.report().results.take(n as int) =~= b.report().results);
        }
        let user_cancelled = desk.user_cancelled;
        desk.state.stage = if user_cancelled {
            BatchStage::Cancelled
        } else {
            BatchStage::Finished
        };
        let snapshot = desk.state.snapshot(None);
        let cancellation = if user_cancelled {
            Some(CancellationReason::User)
        } else {
            None
        };
        let event = if user_cancelled {
            BatchEvent::BatchCancelled
        } else {
            BatchEvent::BatchFinished
        };
        (BatchReport::new(results, cancellation), snapshot, event)
    }
}

/// What is told of a conversion.
pub open spec fn result_told(result: Result<JobReport, RuntimeError>) -> Result<
    JobReportView,
    RuntimeErrorView,
> {
    match result {
        Ok(r) => Ok(r@),
        Err(e) => Err(e@),
    }
}

proof fn lemma_rejected_sound(
    b: BatchView,
    destinations: Seq<Option<Result<Seq<u8>, FileFailureView>>>,
)
    requires
        b.sound(),
    ensures
        b.rejected_up_to(destinations, b.files.len() as int).sound(),
{
    let after = b.rejected_up_to(destinations, b.files.len() as int);
    assert forall|i: int| 0 <= i < b.files.len() implies (#[trigger] b.files[i]).status.busy()
        == after.files[i].status.busy() by {
        assert(b.file_sound(i));
    }
    lemma_same_classes(b.files, after.files);
    assert forall|i: int| 0 <= i < after.files.len() implies #[trigger] after.file_sound(i) by {
        assert(b.file_sound(i));
    }
}

} // verus!
