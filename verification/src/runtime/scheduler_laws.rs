//! What holds of every batch, whatever happens to it.
use vstd::prelude::*;

use crate::backend::{ProgressEvent, ProgressSnapshot};
use crate::execution::JobReportView;
use crate::path;
use crate::plan::JobPlanView;
use crate::runtime::batch;
use crate::runtime::batch::{
    BatchEventView, BatchRequestView, BatchStage, FileStatus, StatusClass,
};
use crate::runtime::batch_laws;
use crate::runtime::error;
use crate::runtime::error::RuntimeErrorView;
use crate::runtime::prepare;
use crate::runtime::prepare::{
    CancellationReason, FailurePolicy, FailureStage, FileFailureView, FileOutcomeView, PreparedView,
};
use crate::runtime::scheduler;
use crate::runtime::scheduler::BatchView;

verus! {

/// Something that happens to a batch.
pub enum Happening {
    /// The user cancels.
    Cancel,
    /// The next file is asked for.
    Take,
    /// The preparation of a file has ended.
    Prepared { index: int, result: PreparedView, cancelled: bool },
    /// The task of a file did not finish.
    Lost { index: int, message: Seq<char> },
    /// The preparations are over.
    PreparationsOver,
    /// The destinations of the ready files are known.
    Destinations { known: Seq<Option<Result<Seq<u8>, FileFailureView>>> },
    /// The conversions are to begin.
    Launch,
    /// A file reports progress.
    Progress { index: int, event: ProgressEvent },
    /// The conversion of a file has ended.
    Executed {
        index: int,
        result: Result<JobReportView, RuntimeErrorView>,
        cancelled: bool,
    },
}

/// A batch after something has happened to it.
pub open spec fn after(b: BatchView, what: Happening) -> BatchView {
    match what {
        Happening::Cancel => b.cancelled().batch,
        Happening::Take => match b.admissible() {
            Some(i) => b.admitted(i).batch,
            None => b,
        },
        Happening::Prepared { index, result, cancelled } => b.after_preparation(
            index,
            result,
            cancelled,
        ).batch,
        Happening::Lost { index, message } => b.after_loss(index, message).batch,
        Happening::PreparationsOver => b.after_preparations().batch,
        Happening::Destinations { known } => b.after_destinations(known).batch,
        Happening::Launch => b.after_launch().batch,
        Happening::Progress { index, event } => b.after_progress(index, event).batch,
        Happening::Executed { index, result, cancelled } => b.after_execution(
            index,
            result,
            cancelled,
        ).batch,
    }
}

/// A batch after a number of things have happened to it.
pub open spec fn after_all(b: BatchView, what: Seq<Happening>) -> BatchView
    decreases what.len(),
{
    if what.len() == 0 {
        b
    } else {
        after(after_all(b, what.drop_last()), what.last())
    }
}

proof fn lemma_sound_after(b: BatchView, what: Happening)
    requires
        b.sound(),
    ensures
        after(b, what).sound(),
{
    match what {
        Happening::Cancel => scheduler::lemma_halted_sound(b, CancellationReason::User),
        Happening::Take => {
            if let Some(i) = b.admissible() {
                scheduler::lemma_admitted_sound(b, i);
            }
        },
        Happening::Prepared { index, result, cancelled } => scheduler::lemma_preparation_sound(
            b,
            index,
            result,
            cancelled,
        ),
        Happening::Lost { index, message } => scheduler::lemma_loss_sound(b, index, message),
        Happening::PreparationsOver => {
            scheduler::lemma_withdrawn_sound(b, CancellationReason::User);
            scheduler::lemma_withdrawn_sound(b, CancellationReason::FailFast);
        },
        Happening::Destinations { known } => scheduler::lemma_destinations_sound(b, known),
        Happening::Launch => scheduler::lemma_launch_sound(b),
        Happening::Progress { index, event } => scheduler::lemma_progress_sound(b, index, event),
        Happening::Executed { index, result, cancelled } => scheduler::lemma_execution_sound(
            b,
            index,
            result,
            cancelled,
        ),
    }
}

/// Whatever happens to a batch, it stays sound, and never more files are being worked on than its
/// options allow.
pub proof fn law_concurrency_is_bounded(request: BatchRequestView, what: Seq<Happening>)
    ensures
        ({
            let b = after_all(BatchView::begun(request), what);
            &&& b.sound()
            &&& b.options == request.options
            &&& b.files.len() == request.files.len()
            &&& batch::count_class(b.files, StatusClass::Active) <= request.options.max_concurrency
        }),
    decreases what.len(),
{
    if what.len() == 0 {
        scheduler::lemma_begun_sound(request);
    } else {
        let before = after_all(BatchView::begun(request), what.drop_last());
        law_concurrency_is_bounded(request, what.drop_last());
        lemma_sound_after(before, what.last());
        lemma_kept(before, what.last());
    }
}

proof fn lemma_kept(b: BatchView, what: Happening)
    requires
        b.sound(),
    ensures
        after(b, what).options == b.options,
        after(b, what).files.len() == b.files.len(),
        forall|i: int|
            0 <= i < b.files.len() ==> (#[trigger] after(b, what).files[i]).path
                == b.files[i].path,
        b.user_cancelled ==> after(b, what).user_cancelled,
        b.options.dry_run && !b.executing ==> !after(b, what).executing,
        b.stopped && !(what is Launch) ==> after(b, what).stopped,
{
    lemma_sound_after(b, what);
    if let Happening::Take = what {
        scheduler::lemma_first_waiting(b, b.next);
    }
}

proof fn lemma_outcomes_kept(b: BatchView, what: Happening)
    requires
        b.sound(),
    ensures
        forall|i: int|
            0 <= i < b.files.len() && (#[trigger] b.terminal[i]) is Some ==> after(
                b,
                what,
            ).terminal[i] == b.terminal[i],
{
    assert forall|i: int| 0 <= i < b.files.len() && (#[trigger] b.terminal[i]) is Some implies after(
        b,
        what,
    ).terminal[i] == b.terminal[i] by {
        assert(b.file_sound(i));
        lemma_outcome_kept(b, what, i);
    }
}

proof fn lemma_halted_keeps(b: BatchView, reason: CancellationReason, i: int)
    requires
        b.sound(),
        0 <= i < b.files.len(),
        b.terminal[i] is Some,
    ensures
        b.halted(reason).batch.terminal[i] == b.terminal[i],
{
    assert(b.file_sound(i));
}

proof fn lemma_settled_keeps(b: BatchView, index: int, outcome: FileOutcomeView, i: int)
    requires
        b.sound(),
        b.is_busy(index),
        0 <= i < b.files.len(),
        b.terminal[i] is Some,
    ensures
        i != index,
        b.settled(index, outcome).terminal[i] == b.terminal[i],
        b.settled(index, outcome).after_outcome(outcome).batch.terminal[i] == b.terminal[i],
{
    assert(b.file_sound(i));
    scheduler::lemma_settled_sound(b, index, outcome);
    lemma_halted_keeps(b.settled(index, outcome), CancellationReason::FailFast, i);
}

proof fn lemma_outcome_kept(b: BatchView, what: Happening, i: int)
    requires
        b.sound(),
        0 <= i < b.files.len(),
        b.terminal[i] is Some,
    ensures
        after(b, what).terminal[i] == b.terminal[i],
{
    assert(b.file_sound(i));
    scheduler::lemma_halted_sound(b, CancellationReason::User);
    lemma_halted_keeps(b, CancellationReason::User, i);
    match what {
        Happening::Take => {
            if let Some(j) = b.admissible() {
                scheduler::lemma_admitted_sound(b, j);
            }
        },
        Happening::Prepared { index, result, cancelled } => {
            if b.is_busy(index) && !b.executing {
                if let PreparedView::Terminal(reported) = result {
                    let first = b.acknowledged(reported is Cancelled, cancelled).batch;
                    assert(first.files[index] == b.files[index]);
                    let outcome = if reported is Cancelled {
                        b.explained(cancelled)
                    } else {
                        reported
                    };
                    lemma_settled_keeps(first, index, outcome, i);
                }
            }
        },
        Happening::Lost { index, message } => {
            if b.is_busy(index) {
                lemma_settled_keeps(b, index, b.lost_outcome(message), i);
            }
        },
        Happening::Executed { index, result, cancelled } => {
            if b.is_busy(index) && b.executing {
                let given_up = result matches Err(e) && error::is_cancellation(e);
                let first = b.acknowledged(given_up, cancelled).batch;
                assert(first.files[index] == b.files[index]);
                lemma_settled_keeps(first, index, b.conversion_outcome(result, cancelled), i);
            }
        },
        _ => {},
    }
}

/// What became of a file never changes afterwards.
pub proof fn law_outcomes_are_final(b: BatchView, what: Seq<Happening>, i: int)
    requires
        b.sound(),
        0 <= i < b.files.len(),
        b.terminal[i] is Some,
    ensures
        after_all(b, what).sound(),
        after_all(b, what).files.len() == b.files.len(),
        after_all(b, what).terminal[i] == b.terminal[i],
    decreases what.len(),
{
    if what.len() > 0 {
        let before = after_all(b, what.drop_last());
        law_outcomes_are_final(b, what.drop_last(), i);
        lemma_sound_after(before, what.last());
        lemma_kept(before, what.last());
        lemma_outcomes_kept(before, what.last());
    }
}

/// The report has one result for every file of the request, in the order of the request.
pub proof fn law_results_follow_the_request(request: BatchRequestView, what: Seq<Happening>)
    ensures
        ({
            let results = after_all(BatchView::begun(request), what).report().results;
            &&& results.len() == request.files.len()
            &&& forall|i: int|
                0 <= i < results.len() ==> (#[trigger] results[i]).input == request.files[i].input
                    && results[i].id == i as usize
        }),
    decreases what.len(),
{
    law_concurrency_is_bounded(request, what);
    lemma_paths_kept(request, what);
}

proof fn lemma_paths_kept(request: BatchRequestView, what: Seq<Happening>)
    ensures
        ({
            let b = after_all(BatchView::begun(request), what);
            &&& b.files.len() == request.files.len()
            &&& forall|i: int|
                0 <= i < b.files.len() ==> (#[trigger] b.files[i]).path == request.files[i].input
        }),
    decreases what.len(),
{
    if what.len() > 0 {
        let before = after_all(BatchView::begun(request), what.drop_last());
        law_concurrency_is_bounded(request, what.drop_last());
        lemma_paths_kept(request, what.drop_last());
        lemma_kept(before, what.last());
    }
}

/// Once nothing is going on, nothing waits and no plan is left, every file has its outcome: the
/// report makes none up.
pub proof fn law_no_outcome_is_omitted(b: BatchView)
    requires
        b.sound(),
        b.is_idle(),
        b.executing || b.ready_count(b.files.len() as int) == 0,
    ensures
        forall|i: int|
            0 <= i < b.files.len() ==> (#[trigger] b.terminal[i]) is Some
                && b.report().results[i].outcome == b.terminal[i]->0,
{
    scheduler::lemma_first_waiting(b, b.next);
    scheduler::lemma_no_active(b.files);
    assert forall|i: int| 0 <= i < b.files.len() implies (#[trigger] b.terminal[i]) is Some
        && b.report().results[i].outcome == b.terminal[i]->0 by {
        assert(b.file_sound(i));
        assert(!b.files[i].status.busy());
        if b.executing {
            if i >= b.next {
                assert(!b.awaits(i));
            }
        } else {
            lemma_none_ready(b, b.files.len() as int, i);
            if i >= b.next {
                assert(!b.awaits(i));
            }
        }
    }
}

proof fn lemma_none_ready(b: BatchView, n: int, i: int)
    requires
        b.ready_count(n) == 0,
        0 <= i < n,
    ensures
        b.prepared[i] is None,
    decreases n,
{
    if i < n - 1 {
        lemma_none_ready(b, n - 1, i);
    }
}

/// After a stop, no file is started before the conversions begin.
pub proof fn law_a_stop_lasts(b: BatchView, what: Seq<Happening>)
    requires
        b.sound(),
        b.stopped,
        forall|k: int| 0 <= k < what.len() ==> !(#[trigger] what[k] is Launch),
    ensures
        after_all(b, what).sound(),
        after_all(b, what).stopped,
        after_all(b, what).admissible() is None,
    decreases what.len(),
{
    if what.len() > 0 {
        let rest = what.drop_last();
        assert forall|k: int| 0 <= k < rest.len() implies !(#[trigger] rest[k] is Launch) by {
            assert(rest[k] == what[k]);
        }
        assert(!(what[what.len() - 1] is Launch));
        law_a_stop_lasts(b, rest);
        lemma_sound_after(after_all(b, rest), what.last());
        lemma_kept(after_all(b, rest), what.last());
    }
}

/// Once the user has cancelled, the report says so, and no conversion begins.
pub proof fn law_a_cancellation_lasts(b: BatchView, what: Seq<Happening>)
    requires
        b.sound(),
        b.user_cancelled,
    ensures
        after_all(b, what).sound(),
        after_all(b, what).user_cancelled,
        !after_all(b, what).can_execute(),
        after_all(b, what).report().cancellation == Some(CancellationReason::User),
    decreases what.len(),
{
    if what.len() > 0 {
        law_a_cancellation_lasts(b, what.drop_last());
        lemma_sound_after(after_all(b, what.drop_last()), what.last());
        lemma_kept(after_all(b, what.drop_last()), what.last());
    }
}

/// A dry run converts nothing.
pub proof fn law_dry_runs_convert_nothing(request: BatchRequestView, what: Seq<Happening>, i: int)
    requires
        request.options.dry_run,
        0 <= i < request.files.len(),
    ensures
        ({
            let b = after_all(BatchView::begun(request), what);
            &&& !b.executing
            &&& b.files[i].status != FileStatus::Running
        }),
    decreases what.len(),
{
    law_concurrency_is_bounded(request, what);
    if what.len() > 0 {
        let before = after_all(BatchView::begun(request), what.drop_last());
        law_concurrency_is_bounded(request, what.drop_last());
        law_dry_runs_convert_nothing(request, what.drop_last(), i);
        lemma_kept(before, what.last());
    }
    assert(after_all(BatchView::begun(request), what).file_sound(i));
}

/// Once the destinations are known, no two files that are ready go to the same place.
pub proof fn law_ready_files_have_their_own_destinations(
    b: BatchView,
    destinations: Seq<Option<Result<Seq<u8>, FileFailureView>>>,
    i: int,
    j: int,
)
    requires
        b.sound(),
        !b.user_cancelled,
        !b.options.dry_run,
        !b.executing,
        0 <= i < b.files.len(),
        0 <= j < b.files.len(),
        i != j,
        b.after_destinations(destinations).batch.prepared[i] is Some,
        b.after_destinations(destinations).batch.prepared[j] is Some,
    ensures
        !scheduler::same_destination(destinations, i, j),
{
    assert(b.file_sound(i));
    assert(b.file_sound(j));
    assert(b.is_ready(i));
    assert(b.is_ready(j));
    assert(b.rejection(destinations, i) is None);
    if scheduler::same_destination(destinations, i, j) {
        assert(b.is_shared(destinations, i));
    }
}

/// Where a failure does not stop the batch, what happens to one file leaves the others alone.
pub proof fn law_failures_stay_with_their_file(b: BatchView, what: Happening, i: int)
    requires
        b.sound(),
        b.options.failure_policy == FailurePolicy::Continue,
        0 <= i < b.files.len(),
        match what {
            Happening::Prepared { index, cancelled, .. } => index != i && !cancelled,
            Happening::Executed { index, cancelled, .. } => index != i && !cancelled,
            Happening::Lost { index, .. } => index != i,
            Happening::Progress { index, .. } => index != i,
            _ => false,
        },
    ensures
        after(b, what).files[i] == b.files[i],
        after(b, what).terminal[i] == b.terminal[i],
        after(b, what).prepared[i] == b.prepared[i],
        after(b, what).stopped == b.stopped,
{
}

/// Where a failure stops the batch, a file that fails, in its preparation, in its conversion or
/// because its task was lost, leaves no file waiting: those that waited are cancelled.
pub proof fn law_fail_fast_stops_the_batch(b: BatchView, what: Happening, i: int)
    requires
        b.sound(),
        b.options.failure_policy == FailurePolicy::FailFast,
        b.is_busy(i),
        match what {
            Happening::Prepared { index, .. } => index == i,
            Happening::Executed { index, .. } => index == i,
            Happening::Lost { index, .. } => index == i,
            _ => false,
        },
        after(b, what).terminal[i] matches Some(FileOutcomeView::Failed(_)),
    ensures
        after(b, what).stopped,
        forall|j: int|
            0 <= j < b.files.len() ==> !#[trigger] after(b, what).awaits(j),
        forall|j: int|
            0 <= j < b.files.len() && j != i && #[trigger] b.awaits(j) ==> after(b, what).terminal[j]
                == Some(FileOutcomeView::Cancelled(CancellationReason::FailFast)),
{
    assert(b.file_sound(i));
    assert forall|j: int| 0 <= j < b.files.len() && j != i && #[trigger] b.awaits(j) implies after(
        b,
        what,
    ).terminal[j] == Some(FileOutcomeView::Cancelled(CancellationReason::FailFast)) by {
        match what {
            Happening::Prepared { result: PreparedView::Terminal(outcome), .. } => {
                assert(b.settled(i, outcome).awaits(j));
            },
            Happening::Executed { result, cancelled, .. } => {
                assert(b.settled(i, b.conversion_outcome(result, cancelled)).awaits(j));
            },
            Happening::Lost { message, .. } => {
                assert(b.settled(i, b.lost_outcome(message)).awaits(j));
            },
            _ => {},
        }
    }
}

/// Whether a file waits: for its preparation, or once files are converted for its conversion.
pub open spec fn waits(b: BatchView, i: int) -> bool {
    0 <= i < b.files.len() && b.files[i].status == if b.executing {
        FileStatus::Ready
    } else {
        FileStatus::Queued
    }
}

proof fn lemma_waits(b: BatchView, i: int)
    requires
        b.sound(),
    ensures
        b.awaits(i) <==> waits(b, i),
{
    if 0 <= i < b.files.len() {
        assert(b.file_sound(i));
    }
}

/// The next file is the first that waits. There is one exactly where some file waits, fewer files are
/// being worked on than the options allow, and nothing has stopped the batch.
pub proof fn law_the_first_waiting_file_is_next(b: BatchView)
    requires
        b.sound(),
    ensures
        ({
            let some = exists|i: int| #[trigger] waits(b, i);
            &&& b.admissible() is Some <==> some && !b.stopped && batch::count_class(
                b.files,
                StatusClass::Active,
            ) < b.options.max_concurrency
            &&& b.admissible() matches Some(i) ==> waits(b, i) && forall|j: int|
                j < i ==> !#[trigger] waits(b, j)
        }),
{
    scheduler::lemma_first_waiting(b, b.next);
    assert forall|i: int| #[trigger] waits(b, i) <==> b.awaits(i) by {
        lemma_waits(b, i);
    }
    if exists|i: int| #[trigger] waits(b, i) {
        let i = choose|i: int| #[trigger] waits(b, i);
        assert(b.awaits(i));
    }
    if let Some(i) = b.first_waiting(b.next) {
        assert(waits(b, i));
    }
}

/// A file that is taken is being prepared, or converted once files are, and no other file changes.
pub proof fn law_taken_files_are_busy(b: BatchView, i: int, j: int)
    requires
        b.sound(),
        b.admissible() == Some(i),
        0 <= j < b.files.len(),
    ensures
        ({
            let next = after(b, Happening::Take);
            &&& !b.executing ==> next.files[i].status == FileStatus::Preparing
            &&& b.executing ==> next.files[i].status == FileStatus::Running
            &&& next.files[i].path == b.files[i].path
            &&& j != i ==> next.files[j] == b.files[j]
            &&& next.active == b.active + 1
            &&& !b.executing ==> b.admitted(i).events == seq![
                BatchEventView::FileStarted { id: i as usize, path: b.files[i].path },
            ]
        }),
{
    scheduler::lemma_first_waiting(b, b.next);
}

/// A file whose preparation gave a plan is ready with that plan and its duration, to be converted;
/// one whose preparation came to an outcome has that outcome.
pub proof fn law_preparations_count(
    b: BatchView,
    i: int,
    job: JobPlanView,
    outcome: FileOutcomeView,
    cancelled: bool,
)
    requires
        b.sound(),
        0 <= i < b.files.len(),
        b.files[i].status == FileStatus::Preparing,
        !(outcome is Cancelled),
    ensures
        ({
            let ready = after(
                b,
                Happening::Prepared { index: i, result: PreparedView::Ready(job), cancelled },
            );
            let over = after(
                b,
                Happening::Prepared { index: i, result: PreparedView::Terminal(outcome), cancelled },
            );
            &&& ready.files[i].status == FileStatus::Ready
            &&& ready.files[i].will_execute
            &&& ready.files[i].duration_us == job.duration
            &&& ready.prepared[i] == Some(job)
            &&& ready.terminal[i] is None
            &&& ready.active == b.active - 1
            &&& over.terminal[i] == Some(outcome)
            &&& over.files[i].status == batch::status_of(outcome)
            &&& over.active == b.active - 1
        }),
{
    assert(b.file_sound(i));
}

/// What becomes of a converted file: published where the conversion succeeded, with what it reported;
/// failed with the message of what went wrong; and cancelled, by the user where the user cancelled,
/// where it was given up. A published file is converted to its end.
pub proof fn law_conversions_count(
    b: BatchView,
    i: int,
    report: JobReportView,
    error: RuntimeErrorView,
    cancelled: bool,
)
    requires
        b.sound(),
        0 <= i < b.files.len(),
        b.files[i].status == FileStatus::Running,
    ensures
        ({
            let good = after(
                b,
                Happening::Executed { index: i, result: Ok(report), cancelled },
            );
            let bad = after(b, Happening::Executed { index: i, result: Err(error), cancelled });
            let given_up = error::is_cancellation(error);
            &&& good.terminal[i] == Some(FileOutcomeView::Succeeded(report))
            &&& good.files[i].status == FileStatus::Succeeded
            &&& good.files[i].position_us == b.files[i].duration_us
            &&& good.files[i].eta_us is None
            &&& good.active == b.active - 1
            &&& !given_up ==> (bad.terminal[i] matches Some(FileOutcomeView::Failed(f)) && f.stage
                == FailureStage::Execute && f.message == prepare::bounded_message(error.message()))
            &&& given_up && cancelled ==> bad.terminal[i] == Some(
                FileOutcomeView::Cancelled(CancellationReason::User),
            ) && bad.user_cancelled
            &&& given_up && !cancelled && b.fail_fast ==> bad.terminal[i] == Some(
                FileOutcomeView::Cancelled(CancellationReason::FailFast),
            )
            &&& given_up && !cancelled && !b.fail_fast ==> (bad.terminal[i] matches Some(
                FileOutcomeView::Failed(f),
            ) && f.stage == FailureStage::Internal)
            &&& bad.files[i].position_us == b.files[i].position_us
        }),
{
    assert(b.file_sound(i));
}

/// A file whose task did not finish is cancelled where the user or a failure stopped the batch, and
/// else failed with what is known of it.
pub proof fn law_lost_files_are_told(b: BatchView, i: int, message: Seq<char>)
    requires
        b.sound(),
        b.is_busy(i),
    ensures
        ({
            let next = after(b, Happening::Lost { index: i, message });
            &&& b.user_cancelled ==> next.terminal[i] == Some(
                FileOutcomeView::Cancelled(CancellationReason::User),
            )
            &&& !b.user_cancelled && b.fail_fast ==> next.terminal[i] == Some(
                FileOutcomeView::Cancelled(CancellationReason::FailFast),
            )
            &&& !b.user_cancelled && !b.fail_fast ==> (next.terminal[i] matches Some(
                FileOutcomeView::Failed(f),
            ) && f.stage == FailureStage::Internal && f.message == prepare::bounded_message(
                message,
            ))
            &&& next.active == b.active - 1
        }),
{
    assert(b.file_sound(i));
}

/// A cancellation by the user cancels every file that waits, leaves the others alone, and stops the
/// batch.
pub proof fn law_cancellation_drops_waiting_files(b: BatchView, i: int)
    requires
        b.sound(),
        !b.user_cancelled,
        0 <= i < b.files.len(),
    ensures
        ({
            let next = after(b, Happening::Cancel);
            &&& next.user_cancelled
            &&& next.stopped
            &&& next.active == b.active
            &&& waits(b, i) ==> next.files[i].status == FileStatus::Cancelled && next.terminal[i]
                == Some(FileOutcomeView::Cancelled(CancellationReason::User)) && next.prepared[i]
                is None
            &&& !waits(b, i) ==> next.files[i] == b.files[i] && next.terminal[i] == b.terminal[i]
                && next.prepared[i] == b.prepared[i]
        }),
{
    lemma_waits(b, i);
}

/// At the end of the preparations of a batch that was cancelled, or that a failure stopped, every
/// file that is ready is cancelled for that reason; other batches keep their plans.
pub proof fn law_stopped_batches_drop_their_plans(b: BatchView, i: int)
    requires
        b.sound(),
        !b.executing,
        0 <= i < b.files.len(),
        b.files[i].status == FileStatus::Ready,
    ensures
        ({
            let next = after(b, Happening::PreparationsOver);
            &&& b.user_cancelled ==> next.terminal[i] == Some(
                FileOutcomeView::Cancelled(CancellationReason::User),
            ) && next.files[i].status == FileStatus::Cancelled && next.prepared[i] is None
            &&& !b.user_cancelled && b.fail_fast ==> next.terminal[i] == Some(
                FileOutcomeView::Cancelled(CancellationReason::FailFast),
            ) && next.files[i].status == FileStatus::Cancelled && next.prepared[i] is None
            &&& !b.user_cancelled && !b.fail_fast ==> next == b
        }),
{
    assert(b.file_sound(i));
}

/// Of the files that are ready, those fail whose destination is not known, with the reason, and those
/// that share their destination with another one. Under a policy that goes on, all others stay
/// ready.
pub proof fn law_destinations_decide(
    b: BatchView,
    destinations: Seq<Option<Result<Seq<u8>, FileFailureView>>>,
    i: int,
)
    requires
        b.sound(),
        !b.user_cancelled,
        !b.options.dry_run,
        !b.executing,
        destinations.len() == b.files.len(),
        0 <= i < b.files.len(),
        b.files[i].status == FileStatus::Ready,
        destinations[i] is Some,
    ensures
        ({
            let next = after(b, Happening::Destinations { known: destinations });
            let shared = exists|j: int|
                0 <= j < b.files.len() && j != i && (#[trigger] b.files[j]).status
                    == FileStatus::Ready && (destinations[j] matches Some(Ok(other)) && (
                destinations[i] matches Some(Ok(own)) && path::same_path(own, other)));
            &&& destinations[i]->0 is Err ==> next.terminal[i] == Some(
                FileOutcomeView::Failed(destinations[i]->0->Err_0),
            )
            &&& shared ==> (next.terminal[i] matches Some(FileOutcomeView::Failed(f)) && f.stage
                == FailureStage::Conflict)
            &&& destinations[i]->0 is Ok && !shared && b.options.failure_policy
                == FailurePolicy::Continue ==> next.prepared[i] == b.prepared[i] && next.terminal[i]
                is None && next.files[i] == b.files[i]
        }),
{
    assert(b.file_sound(i));
    assert(b.is_ready(i));
    assert forall|j: int| 0 <= j < b.files.len() implies (#[trigger] b.is_ready(j)
        <==> b.files[j].status == FileStatus::Ready) by {
        assert(b.file_sound(j));
    }
    let shared = exists|j: int|
        0 <= j < b.files.len() && j != i && (#[trigger] b.files[j]).status == FileStatus::Ready && (
        destinations[j] matches Some(Ok(other)) && (destinations[i] matches Some(Ok(own))
            && path::same_path(own, other)));
    if shared {
        let j = choose|j: int|
            0 <= j < b.files.len() && j != i && (#[trigger] b.files[j]).status == FileStatus::Ready
                && (destinations[j] matches Some(Ok(other)) && (destinations[i] matches Some(Ok(own))
                && path::same_path(own, other)));
        assert(b.is_ready(j) && scheduler::same_destination(destinations, i, j));
    }
    if b.is_shared(destinations, i) {
        let j = choose|j: int|
            0 <= j < b.files.len() && j != i && #[trigger] b.is_ready(j)
                && scheduler::same_destination(destinations, i, j);
        assert(b.files[j].status == FileStatus::Ready);
    }
}

proof fn lemma_ready_count(b: BatchView, n: int)
    requires
        b.sound(),
        0 <= n <= b.files.len(),
    ensures
        b.ready_count(n) == batch_laws::having(
            b.files.take(n),
            FileStatus::Ready,
            FileStatus::Ready,
        ),
    decreases n,
{
    if n > 0 {
        lemma_ready_count(b, n - 1);
        assert(b.files.take(n).drop_last() =~= b.files.take(n - 1));
        assert(b.file_sound(n - 1));
    }
}

/// Conversions begin exactly where some file is ready, the preparations are over, nobody cancelled
/// and it is no dry run. The number of files that is told is that of the ready ones, and all of them
/// wait then.
pub proof fn law_conversions_begin(b: BatchView, i: int)
    requires
        b.sound(),
    ensures
        ({
            let ready = batch_laws::having(b.files, FileStatus::Ready, FileStatus::Ready);
            let next = after(b, Happening::Launch);
            let begins = !b.user_cancelled && !b.options.dry_run && !b.executing && b.active == 0
                && (forall|j: int| !#[trigger] waits(b, j)) && ready > 0;
            &&& begins <==> b.can_execute()
            &&& begins ==> next.executing && next.stage == BatchStage::Executing && !next.stopped
                && next.files == b.files && b.after_launch().events == seq![
                BatchEventView::ExecutionStarted { ready: ready as usize },
            ]
            &&& begins && 0 <= i < b.files.len() && b.files[i].status == FileStatus::Ready
                ==> waits(next, i)
            &&& !begins ==> next == b
        }),
{
    lemma_ready_count(b, b.files.len() as int);
    assert(b.files.take(b.files.len() as int) =~= b.files);
    scheduler::lemma_first_waiting(b, b.next);
    assert forall|j: int| #[trigger] waits(b, j) <==> b.awaits(j) by {
        lemma_waits(b, j);
    }
    if exists|j: int| #[trigger] waits(b, j) {
        let j = choose|j: int| #[trigger] waits(b, j);
        assert(b.awaits(j));
    }
    if let Some(j) = b.first_waiting(b.next) {
        assert(waits(b, j));
    }
}

/// A progress record changes its file alone, is reported, and counts as an advance exactly where the
/// file has moved on.
pub proof fn law_progress_is_noted(b: BatchView, i: int, record: ProgressSnapshot, j: int)
    requires
        0 <= i < b.files.len(),
        0 <= j < b.files.len(),
        b.advancing_samples < usize::MAX,
    ensures
        ({
            let advanced = b.after_progress(i, ProgressEvent::Advanced(record));
            let place = advanced.batch.files[i].position_us;
            let before = b.files[i].position_us;
            let moved = place is Some && (before is None || place->0 > before->0);
            &&& advanced.batch.files[i] == batch::progressed(b.files[i], record)
            &&& j != i ==> advanced.batch.files[j] == b.files[j]
            &&& moved ==> advanced.batch.advancing_samples == b.advancing_samples + 1
            &&& !moved ==> advanced.batch.advancing_samples == b.advancing_samples
            &&& advanced.events == seq![
                BatchEventView::FileProgress {
                    id: i as usize,
                    path: b.files[i].path,
                    progress: record,
                },
            ]
            &&& b.after_progress(i, ProgressEvent::Finished(record)) == advanced
            &&& b.after_progress(i, ProgressEvent::Started).batch == b
        }),
{
}

/// A batch ends cancelled exactly where the user cancelled it, and its report says so.
pub proof fn law_batches_end(b: BatchView)
    ensures
        b.user_cancelled <==> b.final_stage() == BatchStage::Cancelled,
        !b.user_cancelled <==> b.final_stage() == BatchStage::Finished,
        b.report().cancellation == if b.user_cancelled {
            Some(CancellationReason::User)
        } else {
            None
        },
{
}

/// A new batch has every file of the request, queued, in its order, and nothing has become of any.
pub proof fn law_batches_begin_queued(request: BatchRequestView, i: int)
    requires
        0 <= i < request.files.len() <= usize::MAX,
    ensures
        ({
            let b = BatchView::begun(request);
            &&& b.files.len() == request.files.len()
            &&& b.files[i].path == request.files[i].input
            &&& b.files[i].id == i
            &&& b.files[i].status == FileStatus::Queued
            &&& !b.files[i].will_execute
            &&& b.files[i].duration_us is None && b.files[i].position_us is None
            &&& b.terminal[i] is None
            &&& b.active == 0
            &&& !b.stopped && !b.user_cancelled && !b.fail_fast && !b.executing
            &&& b.stage == BatchStage::Preparing
        }),
{
}

} // verus!
