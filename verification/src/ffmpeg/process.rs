//! Supervision of a running tool, one decision at a time.
use vstd::prelude::*;

use crate::backend::IoError;

verus! {

/// How a tool ended.
#[derive(Debug, Clone, Copy, PartialEq, Eq)]
pub struct ExitFacts {
    /// Whether it reported success.
    pub success: bool,
    /// Its exit code.
    pub code: Option<i32>,
}

/// Why a tool could not be stopped.
#[derive(Debug, PartialEq, Eq)]
pub enum StopFault {
    /// It could not be waited for.
    Wait(IoError),
    /// It could not be killed, though it was waited for.
    Kill(IoError),
}

/// Why the diagnostics of a tool are not known.
#[derive(Debug, PartialEq, Eq)]
pub enum StderrFault {
    /// Their reader did not finish.
    Task(String),
    /// They could not be read.
    Read(IoError),
}

/// How the supervision of a tool ended.
pub enum RunEnd<R, F> {
    /// The reader of its output failed.
    ReaderFailed(F),
    /// It could not be waited for.
    WaitFailed(IoError),
    /// It could not be stopped.
    StopFailed(StopFault),
    /// It was stopped and reaped on request.
    Cancelled,
    /// Its diagnostics are not known.
    StderrFailed(StderrFault),
    /// It ended by itself.
    Exited {
        /// How it ended.
        status: ExitFacts,
        /// What the reader of its output gave.
        output: R,
        /// The end of its diagnostics.
        stderr: Vec<u8>,
    },
}

/// What the supervision of a tool waits for.
pub enum RunStage<R, F> {
    /// Whether the reader of its output has finished.
    Reading,
    /// Whether it has ended.
    Polling {
        /// What the reader gave.
        output: Option<R>,
    },
    /// The next time to look, or cancellation.
    Resting {
        /// What the reader gave.
        output: Option<R>,
    },
    /// The tool to be killed and reaped.
    Stopping {
        /// Why.
        end: RunEnd<R, F>,
    },
    /// The readers to be given up.
    Draining {
        /// Why.
        end: RunEnd<R, F>,
    },
    /// The reader of the output of an ended tool.
    LastRead {
        /// How it ended.
        status: ExitFacts,
    },
    /// The diagnostics of an ended tool.
    Diagnosing {
        /// How it ended.
        status: ExitFacts,
        /// What the reader gave.
        output: R,
    },
    /// Nothing any more.
    Over,
}

/// What is to be done next.
pub enum RunAction<R, F> {
    /// Tell whether the reader of the output has finished, and what it gave.
    CheckReader,
    /// Tell whether the tool has ended, without waiting.
    Poll,
    /// Wait for the next time to look, or for cancellation.
    Rest,
    /// Kill the tool and reap it.
    Stop,
    /// Wait for the readers and drop what they gave.
    Drain,
    /// Wait for the reader of the output.
    AwaitReader,
    /// Wait for the reader of the diagnostics.
    AwaitStderr,
    /// Go on waiting.
    Wait,
    /// Report this.
    Finish(RunEnd<R, F>),
}

/// What came of an action.
pub enum RunEvent<R, F> {
    /// The reader of the output goes on.
    ReaderPending,
    /// The reader of the output has finished.
    ReaderJoined(Result<R, F>),
    /// Whether the tool has ended.
    Polled(Result<Option<ExitFacts>, IoError>),
    /// It is time to look again.
    Ticked,
    /// Cancellation was asked for.
    Cancelled,
    /// Whether the tool was stopped and reaped.
    Stopped(Result<(), StopFault>),
    /// The readers are gone.
    Drained,
    /// The diagnostics.
    StderrJoined(Result<Vec<u8>, StderrFault>),
}

/// The end of a supervision.
pub open spec fn over<R, F>(end: RunEnd<R, F>) -> (RunStage<R, F>, RunAction<R, F>) {
    (RunStage::Over, RunAction::Finish(end))
}

/// How a supervision goes on. An event that it does not wait for changes nothing.
pub open spec fn step<R, F>(stage: RunStage<R, F>, event: RunEvent<R, F>) -> (
    RunStage<R, F>,
    RunAction<R, F>,
) {
    match (stage, event) {
        (RunStage::Reading, RunEvent::ReaderPending) => (
            RunStage::Polling { output: None },
            RunAction::Poll,
        ),
        (RunStage::Reading, RunEvent::ReaderJoined(Ok(output))) => (
            RunStage::Polling { output: Some(output) },
            RunAction::Poll,
        ),
        (RunStage::Reading, RunEvent::ReaderJoined(Err(fault))) => (
            RunStage::Stopping { end: RunEnd::ReaderFailed(fault) },
            RunAction::Stop,
        ),
        (RunStage::Polling { output }, RunEvent::Polled(Ok(Some(status)))) => match output {
            Some(output) => (
                RunStage::Diagnosing { status, output },
                RunAction::AwaitStderr,
            ),
            None => (RunStage::LastRead { status }, RunAction::AwaitReader),
        },
        (RunStage::Polling { output }, RunEvent::Polled(Ok(None))) => (
            RunStage::Resting { output },
            RunAction::Rest,
        ),
        (RunStage::Polling { .. }, RunEvent::Polled(Err(source))) => over(
            RunEnd::WaitFailed(source),
        ),
        (RunStage::Resting { output }, RunEvent::Ticked) => match output {
            Some(output) => (RunStage::Polling { output: Some(output) }, RunAction::Poll),
            None => (RunStage::Reading, RunAction::CheckReader),
        },
        (RunStage::Resting { .. }, RunEvent::Cancelled) => (
            RunStage::Stopping { end: RunEnd::Cancelled },
            RunAction::Stop,
        ),
        (RunStage::Stopping { end }, RunEvent::Stopped(Ok(_))) => (
            RunStage::Draining { end },
            RunAction::Drain,
        ),
        (RunStage::Stopping { .. }, RunEvent::Stopped(Err(fault))) => over(
            RunEnd::StopFailed(fault),
        ),
        (RunStage::Draining { end }, RunEvent::Drained) => over(end),
        (RunStage::LastRead { status }, RunEvent::ReaderJoined(Ok(output))) => (
            RunStage::Diagnosing { status, output },
            RunAction::AwaitStderr,
        ),
        (RunStage::LastRead { .. }, RunEvent::ReaderJoined(Err(fault))) => over(
            RunEnd::ReaderFailed(fault),
        ),
        (RunStage::Diagnosing { status, output }, RunEvent::StderrJoined(Ok(stderr))) => over(
            RunEnd::Exited { status, output, stderr },
        ),
        (RunStage::Diagnosing { .. }, RunEvent::StderrJoined(Err(fault))) => over(
            RunEnd::StderrFailed(fault),
        ),
        (other, _) => (other, RunAction::Wait),
    }
}

/// How a supervision begins: with the question whether the reader has finished.
pub fn supervise<R, F>() -> (r: (RunStage<R, F>, RunAction<R, F>))
    ensures
        r == (RunStage::<R, F>::Reading, RunAction::<R, F>::CheckReader),
{
    (RunStage::Reading, RunAction::CheckReader)
}

/// Takes what came of the last action and tells what to do next.
pub fn advance<R, F>(stage: RunStage<R, F>, event: RunEvent<R, F>) -> (r: (
    RunStage<R, F>,
    RunAction<R, F>,
))
    ensures
        r == step(stage, event),
{
    match (stage, event) {
        (RunStage::Reading, RunEvent::ReaderPending) => (
            RunStage::Polling { output: None },
            RunAction::Poll,
        ),
        (RunStage::Reading, RunEvent::ReaderJoined(joined)) => match joined {
            Ok(output) => (RunStage::Polling { output: Some(output) }, RunAction::Poll),
            Err(fault) => (
                RunStage::Stopping { end: RunEnd::ReaderFailed(fault) },
                RunAction::Stop,
            ),
        },
        (RunStage::Polling { output }, RunEvent::Polled(polled)) => match polled {
            Ok(Some(status)) => match output {
                Some(output) => (RunStage::Diagnosing { status, output }, RunAction::AwaitStderr),
                None => (RunStage::LastRead { status }, RunAction::AwaitReader),
            },
            Ok(None) => (RunStage::Resting { output }, RunAction::Rest),
            Err(source) => (RunStage::Over, RunAction::Finish(RunEnd::WaitFailed(source))),
        },
        (RunStage::Resting { output }, RunEvent::Ticked) => match output {
            Some(output) => (RunStage::Polling { output: Some(output) }, RunAction::Poll),
            None => (RunStage::Reading, RunAction::CheckReader),
        },
        (RunStage::Resting { output: _ }, RunEvent::Cancelled) => (
            RunStage::Stopping { end: RunEnd::Cancelled },
            RunAction::Stop,
        ),
        (RunStage::Stopping { end }, RunEvent::Stopped(stopped)) => match stopped {
            Ok(_) => (RunStage::Draining { end }, RunAction::Drain),
            Err(fault) => (RunStage::Over, RunAction::Finish(RunEnd::StopFailed(fault))),
        },
        (RunStage::Draining { end }, RunEvent::Drained) => (
            RunStage::Over,
            RunAction::Finish(end),
        ),
        (RunStage::LastRead { status }, RunEvent::ReaderJoined(joined)) => match joined {
            Ok(output) => (RunStage::Diagnosing { status, output }, RunAction::AwaitStderr),
            Err(fault) => (RunStage::Over, RunAction::Finish(RunEnd::ReaderFailed(fault))),
        },
        (RunStage::Diagnosing { status, output }, RunEvent::StderrJoined(joined)) => match joined {
            Ok(stderr) => (
                RunStage::Over,
                RunAction::Finish(RunEnd::Exited { status, output, stderr }),
            ),
            Err(fault) => (RunStage::Over, RunAction::Finish(RunEnd::StderrFailed(fault))),
        },
        (other, _) => (other, RunAction::Wait),
    }
}

/// What the attempt to stop a tool came to, given whether it could be killed and waited for.
pub open spec fn stop_result(kill: Option<IoError>, wait: Result<(), IoError>) -> Result<
    (),
    StopFault,
> {
    match (wait, kill) {
        (Err(source), _) => Err(StopFault::Wait(source)),
        (Ok(_), Some(source)) => Err(StopFault::Kill(source)),
        (Ok(_), None) => Ok(()),
    }
}

/// What the attempt to stop a tool came to. It is always waited for, so that a tool that could not
/// be killed is reaped all the same.
pub fn stop_outcome(kill: Option<IoError>, wait: Result<(), IoError>) -> (r: Result<(), StopFault>)
    ensures
        r == stop_result(kill, wait),
{
    match wait {
        Err(source) => Err(StopFault::Wait(source)),
        Ok(_) => match kill {
            Some(source) => Err(StopFault::Kill(source)),
            None => Ok(()),
        },
    }
}

/// Where a supervision is after these events, and what it asked for last.
pub open spec fn run<R, F>(events: Seq<RunEvent<R, F>>) -> (RunStage<R, F>, RunAction<R, F>)
    decreases events.len(),
{
    if events.len() == 0 {
        (RunStage::Reading, RunAction::CheckReader)
    } else {
        step(run(events.drop_last()).0, events.last())
    }
}

/// Whether an event says that the tool was stopped and reaped.
pub open spec fn reaps<R, F>(event: RunEvent<R, F>) -> bool {
    event matches RunEvent::Stopped(r) && r is Ok
}

/// The tool was stopped and reaped.
pub open spec fn was_reaped<R, F>(events: Seq<RunEvent<R, F>>) -> bool {
    exists|i: int|
        0 <= i < events.len() && reaps(#[trigger] events[i])
}

/// The tool ended by itself.
pub open spec fn was_over<R, F>(events: Seq<RunEvent<R, F>>, status: ExitFacts) -> bool {
    exists|i: int|
        0 <= i < events.len() && #[trigger] events[i] == RunEvent::<R, F>::Polled(Ok(Some(status)))
}

proof fn lemma_run<R, F>(events: Seq<RunEvent<R, F>>)
    ensures
        match run(events).0 {
            RunStage::Draining { .. } => was_reaped(events),
            RunStage::Stopping { end } => end is Cancelled || end is ReaderFailed,
            RunStage::LastRead { status } => was_over(events, status),
            RunStage::Diagnosing { status, .. } => was_over(events, status),
            _ => true,
        },
        run(events).0 matches RunStage::Draining { end } ==> end is Cancelled || end
            is ReaderFailed,
    decreases events.len(),
{
    if events.len() > 0 {
        let before = events.drop_last();
        lemma_run(before);
        assert(events[events.len() - 1] == events.last());
        assert(was_reaped(before) ==> was_reaped(events)) by {
            if was_reaped(before) {
                let i = choose|i: int|
                    0 <= i < before.len() && reaps(#[trigger] before[i]);
                assert(events[i] == before[i]);
            }
        }
        assert forall|s: ExitFacts| was_over(before, s) implies was_over(events, s) by {
            let i = choose|i: int|
                0 <= i < before.len() && #[trigger] before[i] == RunEvent::<R, F>::Polled(
                    Ok(Some(s)),
                );
            assert(events[i] == before[i]);
        }
    }
}

/// Cancellation is reported only of a tool that was stopped and reaped.
pub proof fn law_cancellation_reaps<R, F>(events: Seq<RunEvent<R, F>>)
    requires
        run(events).1 matches RunAction::Finish(end) && end is Cancelled,
    ensures
        was_reaped(events),
{
    assert(events.len() > 0);
    let before = events.drop_last();
    lemma_run(before);
    lemma_run(events);
    let stage = run(before).0;
    assert(stage is Draining);
    let i = choose|i: int|
        0 <= i < before.len() && reaps(#[trigger] before[i]);
    assert(events[i] == before[i]);
}

/// The end of a tool is reported only where it was seen to have ended that way.
pub proof fn law_exit_was_seen<R, F>(events: Seq<RunEvent<R, F>>, status: ExitFacts)
    requires
        run(events).1 matches RunAction::Finish(RunEnd::Exited { status: s, .. }) && s == status,
    ensures
        was_over(events, status),
{
    assert(events.len() > 0);
    let before = events.drop_last();
    lemma_run(before);
    let stage = run(before).0;
    assert(stage matches RunStage::Diagnosing { status: s, .. } && s == status || stage
        is Draining);
    if stage is Diagnosing {
        let i = choose|i: int|
            0 <= i < before.len() && #[trigger] before[i] == RunEvent::<R, F>::Polled(
                Ok(Some(status)),
            );
        assert(events[i] == before[i]);
    }
}

/// Every ending has its cause: what is reported is what was seen last, or why the tool was stopped.
pub proof fn law_endings_have_causes<R, F>(stage: RunStage<R, F>, event: RunEvent<R, F>)
    ensures
        step(stage, event).1 matches RunAction::Finish(end) ==> {
            &&& step(stage, event).0 is Over
            &&& event is Drained ==> stage == (RunStage::<R, F>::Draining { end })
            &&& end is WaitFailed ==> event is Polled || event is Drained
            &&& end is StopFailed ==> event is Stopped || event is Drained
            &&& end is StderrFailed ==> event is StderrJoined || event is Drained
            &&& end is ReaderFailed ==> event is ReaderJoined || event is Drained
            &&& end is Cancelled ==> event is Drained
            &&& end is Exited && !(event is Drained) ==> event == RunEvent::<R, F>::StderrJoined(
                Ok(end->stderr),
            ) && stage == (RunStage::<R, F>::Diagnosing {
                status: end->Exited_status,
                output: end->Exited_output,
            })
        },
        step(stage, event).1 is Stop ==> (stage is Resting && event is Cancelled) || (stage
            is Reading && event is ReaderJoined),
{
}

/// What is done next: a tool whose output could not be read is stopped, and so is one that is to be
/// cancelled; one that ended has its output and its diagnostics read; otherwise the tool is looked at
/// again, after a rest.
pub proof fn law_tools_are_watched<R, F>(
    output: Option<R>,
    read: R,
    fault: F,
    status: ExitFacts,
)
    ensures
        step(RunStage::<R, F>::Reading, RunEvent::ReaderPending).1 is Poll,
        step(RunStage::<R, F>::Reading, RunEvent::ReaderJoined(Ok(read))) == (
            RunStage::<R, F>::Polling { output: Some(read) },
            RunAction::<R, F>::Poll,
        ),
        step(RunStage::<R, F>::Reading, RunEvent::ReaderJoined(Err(fault))).1 is Stop,
        step(RunStage::<R, F>::Polling { output }, RunEvent::Polled(Ok(None))).1 is Rest,
        output is None ==> step(
            RunStage::<R, F>::Polling { output },
            RunEvent::Polled(Ok(Some(status))),
        ).1 is AwaitReader,
        output is Some ==> step(
            RunStage::<R, F>::Polling { output },
            RunEvent::Polled(Ok(Some(status))),
        ).1 is AwaitStderr,
        step(RunStage::<R, F>::Resting { output }, RunEvent::Cancelled).1 is Stop,
        output is None ==> step(RunStage::<R, F>::Resting { output }, RunEvent::Ticked).1
            is CheckReader,
        output is Some ==> step(RunStage::<R, F>::Resting { output }, RunEvent::Ticked).1 is Poll,
        step(RunStage::<R, F>::LastRead { status }, RunEvent::ReaderJoined(Ok(read))) == (
            RunStage::<R, F>::Diagnosing { status, output: read },
            RunAction::<R, F>::AwaitStderr,
        ),
        step(RunStage::<R, F>::LastRead { status }, RunEvent::ReaderJoined(Err(fault))).1
            == RunAction::<R, F>::Finish(RunEnd::ReaderFailed(fault)),
{
}

/// A tool that was stopped and reaped ends as was meant, once its readers are gone; one that could
/// not be stopped is told so.
pub proof fn law_stopped_tools_end<R, F>(end: RunEnd<R, F>, fault: StopFault)
    ensures
        step(RunStage::Stopping { end }, RunEvent::<R, F>::Stopped(Ok(()))) == (
            RunStage::<R, F>::Draining { end },
            RunAction::<R, F>::Drain,
        ),
        step(RunStage::Draining { end }, RunEvent::<R, F>::Drained).1 == RunAction::<R, F>::Finish(
            end,
        ),
        step(RunStage::Stopping { end }, RunEvent::<R, F>::Stopped(Err(fault))).1 == RunAction::<
            R,
            F,
        >::Finish(RunEnd::StopFailed(fault)),
{
}

/// A tool was stopped where it was killed and waited for; a failed wait is told before a failed kill.
pub proof fn law_stopping_needs_both(kill: Option<IoError>, wait: Result<(), IoError>)
    ensures
        stop_result(kill, wait) is Ok <==> kill is None && wait is Ok,
        wait matches Err(source) ==> stop_result(kill, wait) == Err::<(), _>(
            StopFault::Wait(source),
        ),
        wait is Ok && kill is Some ==> stop_result(kill, wait) == Err::<(), _>(
            StopFault::Kill(kill->0),
        ),
{
}

} // verus!
