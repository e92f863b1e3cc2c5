//! What a supervised tool came to.
use core::time::Duration;

use vstd::prelude::*;

use crate::backend::{
    BackendError, BackendErrorView, BackendExecution, BackendReport, BackendReportView, IoError,
    IoErrorView,
};
use crate::ffmpeg::command;
use crate::ffmpeg::command::{ArgumentBuild, ArgumentError};
use crate::ffmpeg::probe;
use crate::ffmpeg::probe::{ProbeError, ProbeErrorView};
use crate::ffmpeg::process::{RunEnd, StderrFault, StopFault};
use crate::ffmpeg::progress::{ProgressError, ProgressErrorView, ProgressReadReport};
use crate::path::FilePath;
use crate::text;

verus! {

/// Why a conversion failed.
#[derive(Debug, PartialEq, Eq)]
pub enum ExecutionError {
    /// The plan cannot be handed to the tool.
    Arguments(ArgumentError),
    /// The tool could not be started.
    Spawn {
        /// The tool.
        executable: FilePath,
        /// What went wrong.
        source: IoError,
    },
    /// The tool has no such pipe.
    MissingPipe {
        /// The pipe.
        pipe: &'static str,
    },
    /// The progress records could not be read.
    Progress(ProgressError),
    /// The tool could not be waited for.
    Wait {
        /// What went wrong.
        source: IoError,
    },
    /// The tool could not be stopped.
    Terminate {
        /// What went wrong.
        source: IoError,
    },
    /// A reader did not finish.
    ReaderTask {
        /// What it read.
        pipe: &'static str,
        /// What went wrong.
        message: String,
    },
    /// The tool reported a failure.
    Failed {
        /// Its exit code.
        code: Option<i32>,
        /// The end of its diagnostics.
        stderr: String,
    },
    /// The tool reported success without a terminal record.
    MissingProgressEnd,
    /// The conversion was cancelled and the tool was reaped.
    Cancelled,
}

/// Why a conversion failed.
pub enum ExecutionErrorView {
    /// The plan cannot be handed to the tool.
    Arguments(ArgumentError),
    /// The tool could not be started.
    Spawn {
        /// The tool.
        executable: Seq<u8>,
        /// What went wrong.
        source: IoErrorView,
    },
    /// The tool has no such pipe.
    MissingPipe {
        /// The pipe.
        pipe: Seq<char>,
    },
    /// The progress records could not be read.
    Progress(ProgressErrorView),
    /// The tool could not be waited for.
    Wait {
        /// What went wrong.
        source: IoErrorView,
    },
    /// The tool could not be stopped.
    Terminate {
        /// What went wrong.
        source: IoErrorView,
    },
    /// A reader did not finish.
    ReaderTask {
        /// What it read.
        pipe: Seq<char>,
        /// What went wrong.
        message: Seq<char>,
    },
    /// The tool reported a failure.
    Failed {
        /// Its exit code.
        code: Option<i32>,
        /// The end of its diagnostics.
        stderr: Seq<char>,
    },
    /// The tool reported success without a terminal record.
    MissingProgressEnd,
    /// The conversion was cancelled and the tool was reaped.
    Cancelled,
}

impl View for ExecutionError {
    type V = ExecutionErrorView;

    open spec fn view(&self) -> ExecutionErrorView {
        match self {
            ExecutionError::Arguments(value) => ExecutionErrorView::Arguments(*value),
            ExecutionError::Spawn { executable, source } => ExecutionErrorView::Spawn {
                executable: executable@,
                source: source@,
            },
            ExecutionError::MissingPipe { pipe } => ExecutionErrorView::MissingPipe {
                pipe: pipe@,
            },
            ExecutionError::Progress(value) => ExecutionErrorView::Progress(value@),
            ExecutionError::Wait { source } => ExecutionErrorView::Wait {
                source: source@,
            },
            ExecutionError::Terminate { source } => ExecutionErrorView::Terminate {
                source: source@,
            },
            ExecutionError::ReaderTask { pipe, message } => ExecutionErrorView::ReaderTask {
                pipe: pipe@,
                message: message@,
            },
            ExecutionError::Failed { code, stderr } => ExecutionErrorView::Failed {
                code: *code,
                stderr: stderr@,
            },
            ExecutionError::MissingProgressEnd => ExecutionErrorView::MissingProgressEnd,
            ExecutionError::Cancelled => ExecutionErrorView::Cancelled,
        }
    }
}

impl DeepView for ExecutionError {
    type V = ExecutionErrorView;

    open spec fn deep_view(&self) -> ExecutionErrorView {
        self@
    }
}

impl ExecutionErrorView {
    /// The user-facing description.
    pub open spec fn message(self) -> Seq<char> {
        match self {
            ExecutionErrorView::Arguments(value) => value.text(),
            ExecutionErrorView::Spawn { executable, source } => "failed to launch FFmpeg at "@ + text::lossy(executable) + ": "@ + source.message,
            ExecutionErrorView::MissingPipe { pipe } => "FFmpeg "@ + pipe + " pipe was unavailable"@,
            ExecutionErrorView::Progress(value) => value.message(),
            ExecutionErrorView::Wait { source } => "failed to wait for FFmpeg: "@ + source.message,
            ExecutionErrorView::Terminate { source } => "failed to terminate FFmpeg process group: "@ + source.message,
            ExecutionErrorView::ReaderTask { pipe, message } => "FFmpeg "@ + pipe + " reader task failed: "@ + message,
            ExecutionErrorView::Failed { code, stderr } => "FFmpeg exited with code "@ + probe::code_text(code) + ": "@ + stderr,
            ExecutionErrorView::MissingProgressEnd => "FFmpeg exited successfully without `progress=end`"@,
            ExecutionErrorView::Cancelled => "FFmpeg execution cancelled"@,
        }
    }
}

impl ExecutionError {
    /// The user-facing description.
    pub fn message(&self) -> (r: String)
        ensures
            r@ == self@.message(),
    {
        match self {
            ExecutionError::Arguments(value) => value.message(),
            ExecutionError::Spawn { executable, source } => {
                let mut out = text::concat3("failed to launch FFmpeg at ", executable.display().as_str(), ": ");
                text::push_text(&mut out, source.message());
                out
            },
            ExecutionError::MissingPipe { pipe } => text::concat3("FFmpeg ", pipe, " pipe was unavailable"),
            ExecutionError::Progress(value) => value.message(),
            ExecutionError::Wait { source } => text::concat2("failed to wait for FFmpeg: ", source.message()),
            ExecutionError::Terminate { source } => text::concat2("failed to terminate FFmpeg process group: ", source.message()),
            ExecutionError::ReaderTask { pipe, message } => {
                let mut out = text::concat3("FFmpeg ", pipe, " reader task failed: ");
                text::push_text(&mut out, message.as_str());
                out
            },
            ExecutionError::Failed { code, stderr } => {
                let mut out = text::concat3("FFmpeg exited with code ", probe::show_code(*code).as_str(), ": ");
                text::push_text(&mut out, stderr.as_str());
                out
            },
            ExecutionError::MissingProgressEnd => "FFmpeg exited successfully without `progress=end`".to_owned(),
            ExecutionError::Cancelled => "FFmpeg execution cancelled".to_owned(),
        }
    }
}

/// The most bytes of diagnostics that are kept.
pub const MAX_STDERR_BYTES: usize = 262_144;

/// What the reader of the progress records gave, or why its task did not finish.
pub fn join_progress(result: Result<Result<ProgressReadReport, ProgressError>, String>) -> (r: Result<
    ProgressReadReport,
    ExecutionError,
>)
    ensures
        match result {
            Ok(Ok(report)) => r == Ok::<ProgressReadReport, ExecutionError>(report),
            Ok(Err(error)) => r matches Err(e) && e@ == ExecutionErrorView::Progress(error@),
            Err(message) => r matches Err(e) && e@ == (ExecutionErrorView::ReaderTask {
                pipe: "stdout"@,
                message: message@,
            }),
        },
{
    match result {
        Ok(Ok(report)) => Ok(report),
        Ok(Err(error)) => Err(ExecutionError::Progress(error)),
        Err(message) => Err(ExecutionError::ReaderTask { pipe: "stdout", message }),
    }
}

/// What a supervised conversion came to.
pub open spec fn conclusion(
    end: RunEnd<ProgressReadReport, ExecutionError>,
    elapsed: Duration,
    warnings: Seq<Seq<char>>,
) -> Result<BackendReportView, ExecutionErrorView> {
    match end {
        RunEnd::ReaderFailed(error) => Err(error@),
        RunEnd::WaitFailed(source) => Err(ExecutionErrorView::Wait { source: source@ }),
        RunEnd::StopFailed(StopFault::Wait(source)) => Err(
            ExecutionErrorView::Wait { source: source@ },
        ),
        RunEnd::StopFailed(StopFault::Kill(source)) => Err(
            ExecutionErrorView::Terminate { source: source@ },
        ),
        RunEnd::Cancelled => Err(ExecutionErrorView::Cancelled),
        RunEnd::StderrFailed(StderrFault::Task(message)) => Err(
            ExecutionErrorView::ReaderTask { pipe: "stderr"@, message: message@ },
        ),
        RunEnd::StderrFailed(StderrFault::Read(source)) => Err(
            ExecutionErrorView::ReaderTask { pipe: "stderr"@, message: source@.message },
        ),
        RunEnd::Exited { status, output, stderr } => if !status.success {
            Err(
                ExecutionErrorView::Failed {
                    code: status.code,
                    stderr: text::trim(text::lossy(stderr@)),
                },
            )
        } else if !output.saw_end {
            Err(ExecutionErrorView::MissingProgressEnd)
        } else {
            Ok(BackendReportView { elapsed, last_progress: output.last, warnings })
        },
    }
}

/// What a supervised conversion came to. It succeeds exactly where the tool reported success after
/// a terminal record.
pub fn conclude_execution(
    end: RunEnd<ProgressReadReport, ExecutionError>,
    elapsed: Duration,
    warnings: Vec<String>,
) -> (r: Result<BackendReport, ExecutionError>)
    ensures
        match r {
            Ok(report) => conclusion(end, elapsed, warnings.deep_view()) == Ok::<
                _,
                ExecutionErrorView,
            >(report@),
            Err(e) => conclusion(end, elapsed, warnings.deep_view()) == Err::<
                BackendReportView,
                _,
            >(e@),
        },
{
    match end {
        RunEnd::ReaderFailed(error) => Err(error),
        RunEnd::WaitFailed(source) => Err(ExecutionError::Wait { source }),
        RunEnd::StopFailed(fault) => match fault {
            StopFault::Wait(source) => Err(ExecutionError::Wait { source }),
            StopFault::Kill(source) => Err(ExecutionError::Terminate { source }),
        },
        RunEnd::Cancelled => Err(ExecutionError::Cancelled),
        RunEnd::StderrFailed(fault) => match fault {
            StderrFault::Task(message) => Err(
                ExecutionError::ReaderTask { pipe: "stderr", message },
            ),
            StderrFault::Read(source) => Err(
                ExecutionError::ReaderTask {
                    pipe: "stderr",
                    message: source.message().to_owned(),
                },
            ),
        },
        RunEnd::Exited { status, output, stderr } => {
            if !status.success {
                return Err(
                    ExecutionError::Failed {
                        code: status.code,
                        stderr: text::trimmed(text::decode_lossy(&stderr).as_str()),
                    },
                );
            }
            if !output.saw_end {
                return Err(ExecutionError::MissingProgressEnd);
            }
            Ok(BackendReport::new(elapsed, output.last, warnings))
        },
    }
}

/// The arguments for a request.
pub fn execution_request(request: &BackendExecution) -> (r: Result<ArgumentBuild, ExecutionError>)
    ensures
        match r {
            Ok(build) => command::is_consistent(request@.plan) && build@.arguments
                == command::execution_arguments(request@.plan, request@.staging_path)
                && build@.warnings == Seq::<Seq<char>>::empty(),
            Err(e) => !command::is_consistent(request@.plan) && e@
                == ExecutionErrorView::Arguments(ArgumentError::InconsistentPlan),
        },
{
    match command::build_execution_arguments(request.plan(), request.staging_path()) {
        Ok(build) => Ok(build),
        Err(error) => Err(ExecutionError::Arguments(error)),
    }
}

/// The failure of a conversion as the backend reports it.
pub fn execute_error(source: ExecutionError) -> (r: BackendError)
    ensures
        r@ == match source@ {
            ExecutionErrorView::Cancelled => BackendErrorView::Cancelled,
            other => BackendErrorView::Execute { source: other.message() },
        },
{
    match source {
        ExecutionError::Cancelled => BackendError::Cancelled,
        other => BackendError::Execute { source: other.message() },
    }
}

/// What the reader of a document gave, or why its task did not finish.
pub fn join_stdout(result: Result<Result<Vec<u8>, ProbeError>, String>) -> (r: Result<
    Vec<u8>,
    ProbeError,
>)
    ensures
        match result {
            Ok(joined) => r == joined,
            Err(message) => r matches Err(e) && e@ == (ProbeErrorView::StdoutTask {
                message: message@,
            }),
        },
{
    match result {
        Ok(joined) => joined,
        Err(message) => Err(ProbeError::StdoutTask { message }),
    }
}

/// What a supervised inspection came to.
pub open spec fn probe_conclusion(end: RunEnd<Vec<u8>, ProbeError>) -> Result<
    Seq<u8>,
    ProbeErrorView,
> {
    match end {
        RunEnd::ReaderFailed(error) => Err(error@),
        RunEnd::WaitFailed(source) => Err(ProbeErrorView::Wait { source: source@ }),
        RunEnd::StopFailed(StopFault::Wait(source)) => Err(
            ProbeErrorView::Wait { source: source@ },
        ),
        RunEnd::StopFailed(StopFault::Kill(source)) => Err(
            ProbeErrorView::Terminate { source: source@ },
        ),
        RunEnd::Cancelled => Err(ProbeErrorView::Cancelled),
        RunEnd::StderrFailed(StderrFault::Task(message)) => Err(
            ProbeErrorView::StderrTask { message: message@ },
        ),
        RunEnd::StderrFailed(StderrFault::Read(source)) => Err(
            ProbeErrorView::ReadOutput { pipe: "stderr"@, source: source@ },
        ),
        RunEnd::Exited { status, output, stderr } => if !status.success {
            Err(
                ProbeErrorView::Failed {
                    code: status.code,
                    stderr: text::trim(text::lossy(stderr@)),
                },
            )
        } else {
            Ok(output@)
        },
    }
}

/// What a supervised inspection came to: the document, where the tool reported success.
pub fn conclude_probe(end: RunEnd<Vec<u8>, ProbeError>) -> (r: Result<Vec<u8>, ProbeError>)
    ensures
        match r {
            Ok(document) => probe_conclusion(end) == Ok::<_, ProbeErrorView>(document@),
            Err(e) => probe_conclusion(end) == Err::<Seq<u8>, _>(e@),
        },
{
    match end {
        RunEnd::ReaderFailed(error) => Err(error),
        RunEnd::WaitFailed(source) => Err(ProbeError::Wait { source }),
        RunEnd::StopFailed(fault) => match fault {
            StopFault::Wait(source) => Err(ProbeError::Wait { source }),
            StopFault::Kill(source) => Err(ProbeError::Terminate { source }),
        },
        RunEnd::Cancelled => Err(ProbeError::Cancelled),
        RunEnd::StderrFailed(fault) => match fault {
            StderrFault::Task(message) => Err(ProbeError::StderrTask { message }),
            StderrFault::Read(source) => Err(ProbeError::ReadOutput { pipe: "stderr", source }),
        },
        RunEnd::Exited { status, output, stderr } => {
            if !status.success {
                return Err(
                    ProbeError::Failed {
                        code: status.code,
                        stderr: text::trimmed(text::decode_lossy(&stderr).as_str()),
                    },
                );
            }
            Ok(output)
        },
    }
}

/// The failure of an inspection as the backend reports it.
pub fn probe_error(path: &FilePath, source: ProbeError) -> (r: BackendError)
    ensures
        r@ == match source@ {
            ProbeErrorView::Cancelled => BackendErrorView::Cancelled,
            other => BackendErrorView::Probe { path: path@, source: other.message() },
        },
{
    match source {
        ProbeError::Cancelled => BackendError::Cancelled,
        other => BackendError::Probe { path: path.clone(), source: other.message() },
    }
}

/// A conversion that was stopped is never taken for a success.
pub proof fn law_success_needs_a_terminal_record(
    end: RunEnd<ProgressReadReport, ExecutionError>,
    elapsed: Duration,
    warnings: Seq<Seq<char>>,
)
    requires
        conclusion(end, elapsed, warnings) is Ok,
    ensures
        end matches RunEnd::Exited { status, output, .. } && status.success && output.saw_end,
{
}

/// Why a conversion did not succeed: a failing exit is told with its code and its diagnostics without
/// the white space around them; the rest is told as it came.
pub proof fn law_failed_conversions(
    end: RunEnd<ProgressReadReport, ExecutionError>,
    elapsed: Duration,
    warnings: Seq<Seq<char>>,
)
    ensures
        ({
            let r = conclusion(end, elapsed, warnings);
            &&& end matches RunEnd::Exited { status, output, stderr } ==> {
                &&& !status.success ==> r == Err::<BackendReportView, _>(
                    ExecutionErrorView::Failed {
                        code: status.code,
                        stderr: text::trim(text::lossy(stderr@)),
                    },
                )
                &&& status.success && !output.saw_end ==> r == Err::<BackendReportView, _>(
                    ExecutionErrorView::MissingProgressEnd,
                )
                &&& status.success && output.saw_end ==> r is Ok && r->Ok_0.elapsed == elapsed
                    && r->Ok_0.last_progress == output.last && r->Ok_0.warnings == warnings
            }
            &&& !(end is Exited) ==> r is Err
            &&& r == Err::<BackendReportView, _>(ExecutionErrorView::Cancelled) ==> end
                is Cancelled || (end matches RunEnd::ReaderFailed(e) && e@ is Cancelled)
            &&& end is Cancelled ==> r->Err_0 is Cancelled
            &&& end is WaitFailed ==> r->Err_0 is Wait
            &&& end matches RunEnd::StopFailed(fault) ==> (fault is Kill <==> r->Err_0 is Terminate)
                && (fault is Wait <==> r->Err_0 is Wait)
            &&& end is StderrFailed ==> r->Err_0 is ReaderTask
            &&& end matches RunEnd::ReaderFailed(e) ==> r->Err_0 == e@
        }),
{
}

/// An inspection gives the output of a tool that succeeded, and of no other.
pub proof fn law_inspections_need_success(end: RunEnd<Vec<u8>, ProbeError>)
    ensures
        ({
            let r = probe_conclusion(end);
            &&& end matches RunEnd::Exited { status, output, stderr } ==> {
                &&& status.success ==> r == Ok::<_, ProbeErrorView>(output@)
                &&& !status.success ==> r == Err::<Seq<u8>, _>(
                    ProbeErrorView::Failed {
                        code: status.code,
                        stderr: text::trim(text::lossy(stderr@)),
                    },
                )
            }
            &&& !(end is Exited) ==> r is Err
            &&& end is Cancelled ==> r->Err_0 is Cancelled
            &&& end is WaitFailed ==> r->Err_0 is Wait
            &&& end matches RunEnd::StopFailed(fault) ==> (fault is Kill <==> r->Err_0 is Terminate)
                && (fault is Wait <==> r->Err_0 is Wait)
            &&& end matches RunEnd::ReaderFailed(e) ==> r->Err_0 == e@
        }),
{
}

} // verus!
