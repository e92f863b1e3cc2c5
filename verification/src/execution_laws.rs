//! What every transaction keeps, whatever comes of its actions.
use vstd::prelude::*;

use crate::backend::{
    BackendErrorView, BackendExecutionView, BackendReportView, IoErrorKind, IoErrorView,
};
use crate::execution;
use crate::execution::{ActionView, EntryFacts, EventView, ExecutionErrorView, StageView};
use crate::media::MediaInfoView;
use crate::path;
use crate::plan::JobPlanView;
use crate::validate;

verus! {

/// Where a transaction is after these events, and what it asked for last.
pub open spec fn run(job: JobPlanView, cancelled: bool, events: Seq<EventView>) -> (
    StageView,
    ActionView,
)
    decreases events.len(),
{
    if events.len() == 0 {
        execution::begun(job, cancelled)
    } else {
        execution::step(job, run(job, cancelled, events.drop_last()).0, events.last())
    }
}

/// Nothing was found at the output path.
pub open spec fn output_was_absent(events: Seq<EventView>) -> bool {
    exists|source: IoErrorView|
        source.kind == IoErrorKind::NotFound && #[trigger] events.contains(
            EventView::OutputEntry(Err(source)),
        )
}

/// The conversion succeeded.
pub open spec fn conversion_succeeded(events: Seq<EventView>) -> bool {
    exists|report: BackendReportView| #[trigger]
        events.contains(EventView::Executed(Ok(report)))
}

/// The conversion left a usable file.
pub open spec fn staging_was_usable(events: Seq<EventView>) -> bool {
    exists|entry: EntryFacts|
        entry.usable() && #[trigger] events.contains(EventView::StagingEntry(Ok(entry)))
}

/// A probe found the staging file as the plan promised it.
pub open spec fn staging_was_as_promised(job: JobPlanView, events: Seq<EventView>) -> bool {
    exists|media: MediaInfoView|
        validate::all_mismatches(job, media).len() == 0 && #[trigger] events.contains(
            EventView::Probed(Ok(media)),
        )
}

/// The staging file was flushed.
pub open spec fn staging_was_flushed(events: Seq<EventView>) -> bool {
    events.contains(EventView::Synced(Ok(())))
}

/// The staging file was renamed to the output path.
pub open spec fn output_was_published(events: Seq<EventView>) -> bool {
    events.contains(EventView::Committed(Ok(())))
}

/// How far the events must have come for a transaction to be at this stage.
spec fn earned(job: JobPlanView, stage: StageView, events: Seq<EventView>) -> bool {
    let absent = output_was_absent(events);
    let converted = conversion_succeeded(events);
    let usable = staging_was_usable(events);
    let promised = staging_was_as_promised(job, events);
    let flushed = staging_was_flushed(events);
    match stage {
        StageView::CheckParent { .. } => absent,
        StageView::CreateStaging { .. } => absent,
        StageView::Execute { .. } => absent,
        StageView::CheckStaging { .. } => absent && converted,
        StageView::Probe { .. } => absent && converted && usable,
        StageView::Sync { .. } => absent && converted && usable && promised,
        StageView::Commit { .. } => absent && converted && usable && promised && flushed,
        StageView::Finish { .. } => absent && converted && usable && promised && flushed
            && output_was_published(events),
        _ => true,
    }
}

/// More events take nothing back.
proof fn lemma_events_stay(job: JobPlanView, events: Seq<EventView>, next: EventView)
    ensures
        events.push(next).contains(next),
        output_was_absent(events) ==> output_was_absent(events.push(next)),
        conversion_succeeded(events) ==> conversion_succeeded(events.push(next)),
        staging_was_usable(events) ==> staging_was_usable(events.push(next)),
        staging_was_as_promised(job, events) ==> staging_was_as_promised(job, events.push(next)),
        staging_was_flushed(events) ==> staging_was_flushed(events.push(next)),
        output_was_published(events) ==> output_was_published(events.push(next)),
{
    let more = events.push(next);
    assert(more[events.len() as int] == next);
    assert forall|e: EventView| events.contains(e) implies #[trigger] more.contains(e) by {
        let i = choose|i: int| 0 <= i < events.len() && events[i] == e;
        assert(more[i] == e);
    }
    if output_was_absent(events) {
        let s = choose|source: IoErrorView|
            source.kind == IoErrorKind::NotFound && #[trigger] events.contains(
                EventView::OutputEntry(Err(source)),
            );
        assert(more.contains(EventView::OutputEntry(Err(s))));
    }
    if conversion_succeeded(events) {
        let r = choose|report: BackendReportView| #[trigger]
            events.contains(EventView::Executed(Ok(report)));
        assert(more.contains(EventView::Executed(Ok(r))));
    }
    if staging_was_usable(events) {
        let f = choose|entry: EntryFacts|
            entry.usable() && #[trigger] events.contains(EventView::StagingEntry(Ok(entry)));
        assert(more.contains(EventView::StagingEntry(Ok(f))));
    }
    if staging_was_as_promised(job, events) {
        let m = choose|media: MediaInfoView|
            validate::all_mismatches(job, media).len() == 0 && #[trigger] events.contains(
                EventView::Probed(Ok(media)),
            );
        assert(more.contains(EventView::Probed(Ok(m))));
    }
}

proof fn lemma_earned(job: JobPlanView, cancelled: bool, events: Seq<EventView>)
    ensures
        earned(job, run(job, cancelled, events).0, events),
    decreases events.len(),
{
    if events.len() > 0 {
        let before = events.drop_last();
        let last = events.last();
        lemma_earned(job, cancelled, before);
        lemma_events_stay(job, before, last);
        assert(before.push(last) =~= events);
        let stage = run(job, cancelled, before).0;
        match (stage, last) {
            (StageView::CheckOutput { .. }, EventView::OutputEntry(Err(source))) => {
                assert(events.contains(EventView::OutputEntry(Err(source))));
            },
            (StageView::Execute { .. }, EventView::Executed(Ok(report))) => {
                assert(events.contains(EventView::Executed(Ok(report))));
            },
            (StageView::CheckStaging { .. }, EventView::StagingEntry(Ok(entry))) => {
                assert(events.contains(EventView::StagingEntry(Ok(entry))));
            },
            (StageView::Probe { .. }, EventView::Probed(Ok(media))) => {
                assert(events.contains(EventView::Probed(Ok(media))));
            },
            (StageView::Sync { .. }, EventView::Synced(Ok(unit))) => {
                assert(unit == ());
            },
            (StageView::Commit { .. }, EventView::Committed(Ok(unit))) => {
                assert(unit == ());
            },
            _ => {},
        }
    }
}

/// The tool is started only where nothing was found at the output path.
pub proof fn law_existing_output_is_never_converted_over(
    job: JobPlanView,
    cancelled: bool,
    events: Seq<EventView>,
)
    requires
        run(job, cancelled, events).1 is Execute,
    ensures
        output_was_absent(events),
{
    lemma_earned(job, cancelled, events);
}

/// A file is renamed to the output path only after nothing was found there, the conversion
/// succeeded, it left a regular file that holds something, a probe found that file as the plan
/// promised it, and the file was flushed.
pub proof fn law_publication_needs_every_check(
    job: JobPlanView,
    cancelled: bool,
    events: Seq<EventView>,
)
    requires
        run(job, cancelled, events).1 is Commit,
    ensures
        output_was_absent(events),
        conversion_succeeded(events),
        staging_was_usable(events),
        staging_was_as_promised(job, events),
        staging_was_flushed(events),
{
    lemma_earned(job, cancelled, events);
}

proof fn lemma_success_comes_last(job: JobPlanView, stage: StageView, event: EventView)
    requires
        execution::step(job, stage, event).1 matches ActionView::Finish(r) && r is Ok,
    ensures
        stage is Finish,
{
}

/// Success is reported only of an output that was checked and published.
pub proof fn law_success_means_published(
    job: JobPlanView,
    cancelled: bool,
    events: Seq<EventView>,
)
    requires
        run(job, cancelled, events).1 matches ActionView::Finish(r) && r is Ok,
    ensures
        output_was_published(events),
        staging_was_as_promised(job, events),
        staging_was_flushed(events),
{
    assert(events.len() > 0);
    let before = events.drop_last();
    lemma_success_comes_last(job, run(job, cancelled, before).0, events.last());
    lemma_earned(job, cancelled, before);
    lemma_events_stay(job, before, events.last());
    assert(before.push(events.last()) =~= events);
}

/// Whether there are staging files that nobody was asked to remove.
pub open spec fn holds_staging(stage: StageView) -> bool {
    stage is Execute || stage is CheckStaging || stage is Probe || stage is Sync || stage is Commit
}

/// A transaction with staging files never ends without having asked for their removal.
pub proof fn law_failure_removes_staging(job: JobPlanView, stage: StageView, event: EventView)
    requires
        holds_staging(stage),
    ensures
        ({
            let (next, action) = execution::step(job, stage, event);
            ||| holds_staging(next) && !(action is Finish)
            ||| next is Cleanup && action is CleanUp
            ||| next is Finish && action is RemoveDirectory
        }),
{
}

/// After staging files were removed, or could not be, the failure that led there is reported.
pub proof fn law_cleanup_keeps_the_failure(
    job: JobPlanView,
    primary: ExecutionErrorView,
    event: EventView,
)
    ensures
        match execution::step(job, StageView::Cleanup { primary }, event).1 {
            ActionView::Finish(Err(error)) => error == primary || (error
                matches ExecutionErrorView::Cleanup { primary: inner, .. } && *inner == primary),
            action => action is Wait,
        },
{
}

/// Something at the output path ends the transaction, and nothing is asked for after an end.
pub proof fn law_existing_output_ends_the_transaction(
    job: JobPlanView,
    output: Seq<u8>,
    event: EventView,
)
    ensures
        execution::step(job, StageView::CheckOutput { output }, EventView::OutputEntry(Ok(())))
            == execution::done(Err(ExecutionErrorView::OutputExists { path: output })),
        execution::step(job, StageView::Done, event) == (StageView::Done, ActionView::Wait),
{
}

/// A task in the file system that did not finish never leaves the transaction waiting: it ends with
/// a failure, or asks for the removal of its staging files.
pub proof fn law_lost_tasks_are_answered(job: JobPlanView, stage: StageView, message: Seq<char>)
    requires
        !(stage is Execute || stage is Probe || stage is Done),
    ensures
        ({
            let (next, action) = execution::step(job, stage, EventView::TaskFailed(message));
            ||| next is Done && (action matches ActionView::Finish(result) && result is Err)
            ||| next is Cleanup && action is CleanUp
        }),
{
}

/// An output whose parent is missing, or is no directory, is refused as such, before there are
/// staging files.
pub proof fn law_outputs_need_a_parent_directory(
    job: JobPlanView,
    output: Seq<u8>,
    parent: Seq<u8>,
    source: IoErrorView,
)
    requires
        source.kind == IoErrorKind::NotFound,
    ensures
        ({
            let stage = StageView::CheckParent { output, parent };
            let refused = execution::done(
                Err(ExecutionErrorView::InvalidOutputParent { path: parent }),
            );
            &&& execution::step(job, stage, EventView::ParentEntry(Err(source))) == refused
            &&& execution::step(job, stage, EventView::ParentEntry(Ok(false))) == refused
        }),
{
}

/// A transaction begins at the output path, seen from the current directory where it is relative. A
/// cancelled one does not begin.
pub proof fn law_transactions_begin_at_the_output(job: JobPlanView, directory: Seq<u8>)
    ensures
        run(job, true, seq![]).1 == ActionView::Finish(Err(ExecutionErrorView::Cancelled)),
        path::is_rooted(job.output) ==> run(job, false, seq![]) == (
            StageView::CheckOutput { output: job.output },
            ActionView::InspectOutput(job.output),
        ),
        !path::is_rooted(job.output) ==> run(job, false, seq![]) == (
            StageView::Resolve,
            ActionView::ReadCurrentDirectory,
        ),
        !path::is_rooted(job.output) ==> execution::step(
            job,
            StageView::Resolve,
            EventView::CurrentDirectory(Ok(directory)),
        ) == (
            StageView::CheckOutput { output: path::join(directory, job.output) },
            ActionView::InspectOutput(path::join(directory, job.output)),
        ),
{
}

/// Where everything succeeds, a transaction inspects the output and its parent, makes a staging file
/// in the parent, converts into it, inspects and probes what came of that, flushes it, renames it to
/// the output, removes the staging directory and reports the output and what the conversion said.
pub proof fn law_successful_transactions_publish(
    job: JobPlanView,
    absent: IoErrorView,
    staging: Seq<u8>,
    report: BackendReportView,
    facts: EntryFacts,
    media: MediaInfoView,
    removed: Result<(), IoErrorView>,
)
    requires
        path::is_rooted(job.output),
        path::parent(job.output) is Some,
        absent.kind == IoErrorKind::NotFound,
        !facts.symlink,
        facts.file,
        facts.length > 0,
        validate::all_mismatches(job, media).len() == 0,
    ensures
        ({
            let output = job.output;
            let parent = path::parent(output)->0;
            let e1 = seq![EventView::OutputEntry(Err(absent))];
            let e2 = e1.push(EventView::ParentEntry(Ok(true)));
            let e3 = e2.push(EventView::StagingCreated(Ok(staging)));
            let e4 = e3.push(EventView::Executed(Ok(report)));
            let e5 = e4.push(EventView::StagingEntry(Ok(facts)));
            let e6 = e5.push(EventView::Probed(Ok(media)));
            let e7 = e6.push(EventView::Synced(Ok(())));
            let e8 = e7.push(EventView::Committed(Ok(())));
            let e9 = e8.push(EventView::DirectoryRemoved(removed));
            &&& run(job, false, e1).1 == ActionView::InspectParent(parent)
            &&& run(job, false, e2).1 == ActionView::CreateStaging(parent)
            &&& run(job, false, e3).1 == ActionView::Execute(
                BackendExecutionView { plan: job, staging_path: staging },
            )
            &&& run(job, false, e4).1 == ActionView::InspectStaging(staging)
            &&& run(job, false, e5).1 == ActionView::Probe(staging)
            &&& run(job, false, e6).1 == ActionView::Sync(staging)
            &&& run(job, false, e7).1 == (ActionView::Commit { from: staging, to: output })
            &&& run(job, false, e8).1 is RemoveDirectory
            &&& run(job, false, e9).1 matches ActionView::Finish(Ok(told)) && told.output == output
                && told.backend == report && told.validation.len() == 0 && (removed is Ok
                ==> told.warnings.len() == 0) && (removed is Err ==> told.warnings == seq![
                "committed output but could not remove staging directory: "@
                    + removed->Err_0.message,
            ])
        }),
{
    let e1 = seq![EventView::OutputEntry(Err(absent))];
    let e2 = e1.push(EventView::ParentEntry(Ok(true)));
    let e3 = e2.push(EventView::StagingCreated(Ok(staging)));
    let e4 = e3.push(EventView::Executed(Ok(report)));
    let e5 = e4.push(EventView::StagingEntry(Ok(facts)));
    let e6 = e5.push(EventView::Probed(Ok(media)));
    let e7 = e6.push(EventView::Synced(Ok(())));
    let e8 = e7.push(EventView::Committed(Ok(())));
    let e9 = e8.push(EventView::DirectoryRemoved(removed));
    assert(e1.drop_last() =~= seq![]);
    assert(e2.drop_last() =~= e1);
    assert(e3.drop_last() =~= e2);
    assert(e4.drop_last() =~= e3);
    assert(e5.drop_last() =~= e4);
    assert(e6.drop_last() =~= e5);
    assert(e7.drop_last() =~= e6);
    assert(e8.drop_last() =~= e7);
    assert(e9.drop_last() =~= e8);
    assert(run(job, false, seq![]) == execution::begun(job, false));
    assert(run(job, false, e1).0 is CheckParent);
    assert(run(job, false, e2).0 is CreateStaging);
    assert(run(job, false, e3).0 is Execute);
    assert(run(job, false, e4).0 is CheckStaging);
    assert(run(job, false, e5).0 is Probe);
    assert(run(job, false, e6).0 is Sync);
    assert(run(job, false, e7).0 is Commit);
    assert(run(job, false, e8).0 is Finish);
}

/// Whether a transaction gives up with a failure and asks for the removal of its staging files.
pub open spec fn gives_up(next: (StageView, ActionView), failure: ExecutionErrorView) -> bool {
    next == (StageView::Cleanup { primary: failure }, ActionView::CleanUp)
}

/// What went wrong is told as what it is: a failed conversion or probe as the failure of the tool,
/// one that was cancelled as a cancellation, a staging file that is no regular file or empty as
/// invalid, every difference from the promise, a failed flush, and a rename that met an existing
/// file, that is not supported or that failed otherwise.
pub proof fn law_failures_are_told(
    job: JobPlanView,
    output: Seq<u8>,
    staging: Seq<u8>,
    report: BackendReportView,
    error: BackendErrorView,
    source: IoErrorView,
    facts: EntryFacts,
    media: MediaInfoView,
)
    ensures
        ({
            let told = if error is Cancelled {
                ExecutionErrorView::Cancelled
            } else {
                ExecutionErrorView::Backend(error)
            };
            let checking = StageView::CheckStaging { output, staging, report };
            let probing = StageView::Probe { output, staging, report };
            let syncing = StageView::Sync { output, staging, report };
            let committing = StageView::Commit { output, report };
            let differences = validate::all_mismatches(job, media);
            &&& gives_up(
                execution::step(
                    job,
                    StageView::Execute { output, staging },
                    EventView::Executed(Err(error)),
                ),
                told,
            )
            &&& gives_up(execution::step(job, probing, EventView::Probed(Err(error))), told)
            &&& facts.symlink || !facts.file || facts.length == 0 ==> gives_up(
                execution::step(job, checking, EventView::StagingEntry(Ok(facts))),
                ExecutionErrorView::InvalidStagingFile,
            )
            &&& gives_up(
                execution::step(job, checking, EventView::StagingEntry(Err(source))),
                ExecutionErrorView::InvalidStagingFile,
            )
            &&& differences.len() > 0 ==> gives_up(
                execution::step(job, probing, EventView::Probed(Ok(media))),
                ExecutionErrorView::Validation {
                    mismatches: differences,
                    count: differences.len() as usize,
                },
            )
            &&& gives_up(
                execution::step(job, syncing, EventView::Synced(Err(source))),
                ExecutionErrorView::Sync { source },
            )
            &&& gives_up(
                execution::step(job, committing, EventView::Committed(Err(source))),
                if source.kind == IoErrorKind::AlreadyExists {
                    ExecutionErrorView::CommitCollision { path: output }
                } else if source.kind == IoErrorKind::Unsupported {
                    ExecutionErrorView::AtomicCommitUnsupported { path: output }
                } else {
                    ExecutionErrorView::Commit { source }
                },
            )
        }),
{
}

/// Before there are staging files, a failure ends the transaction at once, by its own name; a failed
/// removal of staging files is told beside the failure that led to it.
pub proof fn law_early_failures_end(
    job: JobPlanView,
    output: Seq<u8>,
    parent: Seq<u8>,
    source: IoErrorView,
    primary: ExecutionErrorView,
)
    ensures
        execution::step(job, StageView::Resolve, EventView::CurrentDirectory(Err(source))).1
            == ActionView::Finish(Err(ExecutionErrorView::ResolveOutput { source })),
        source.kind != IoErrorKind::NotFound ==> execution::step(
            job,
            StageView::CheckOutput { output },
            EventView::OutputEntry(Err(source)),
        ).1 == ActionView::Finish(Err(ExecutionErrorView::Preflight { source })),
        source.kind != IoErrorKind::NotFound ==> execution::step(
            job,
            StageView::CheckParent { output, parent },
            EventView::ParentEntry(Err(source)),
        ).1 == ActionView::Finish(Err(ExecutionErrorView::Preflight { source })),
        execution::step(
            job,
            StageView::CreateStaging { output },
            EventView::StagingCreated(Err(source)),
        ).1 == ActionView::Finish(Err(ExecutionErrorView::CreateStaging { source })),
        execution::step(job, StageView::Cleanup { primary }, EventView::CleanedUp(Ok(()))).1
            == ActionView::Finish(Err(primary)),
        execution::step(job, StageView::Cleanup { primary }, EventView::CleanedUp(Err(source))).1
            == ActionView::Finish(
            Err(ExecutionErrorView::Cleanup { primary: Box::new(primary), cleanup: source }),
        ),
{
}

} // verus!
