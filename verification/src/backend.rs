//! What the library knows of the media tools: requests, reports and failures.
use core::time::Duration;

use vstd::prelude::*;

use crate::path::FilePath;
use crate::plan::{JobPlan, JobPlanView};
use crate::text;

verus! {

/// What kind of failure the operating system reported.
#[derive(Debug, Clone, Copy, PartialEq, Eq, Structural)]
pub enum IoErrorKind {
    /// The entry does not exist.
    NotFound,
    /// The entry exists already.
    AlreadyExists,
    /// The operation is not supported.
    Unsupported,
    /// Any other failure.
    Other,
}

impl DeepView for IoErrorKind {
    type V = IoErrorKind;

    open spec fn deep_view(&self) -> IoErrorKind {
        *self
    }
}

/// A failure that the operating system reported.
#[derive(Debug, PartialEq, Eq)]
pub struct IoError {
    kind: IoErrorKind,
    message: String,
}

/// A failure that the operating system reported.
pub struct IoErrorView {
    /// What kind of failure it was.
    pub kind: IoErrorKind,
    /// Its description.
    pub message: Seq<char>,
}

impl View for IoError {
    type V = IoErrorView;

    closed spec fn view(&self) -> IoErrorView {
        IoErrorView {
            kind: self.kind,
            message: self.message@,
        }
    }
}

impl DeepView for IoError {
    type V = IoErrorView;

    open spec fn deep_view(&self) -> IoErrorView {
        self@
    }
}

impl Clone for IoError {
    fn clone(&self) -> (r: Self)
        ensures
            r@ == self@,
    {
        let r = IoError {
            kind: self.kind,
            message: self.message.clone(),
        };
        r
    }
}

impl IoError {
    /// A failure that the operating system reported.
    pub fn new(kind: IoErrorKind, message: String) -> (r: Self)
        ensures
            r@ == (IoErrorView {
                kind: kind,
                message: message@,
            }),
    {
        IoError { kind, message }
    }

    /// What kind of failure it was.
    pub fn kind(&self) -> (r: IoErrorKind)
        ensures
            r == self@.kind,
    {
        self.kind
    }

    /// Its description.
    pub fn message(&self) -> (r: &str)
        ensures
            r@ == self@.message,
    {
        self.message.as_str()
    }
}

/// One complete progress record.
#[derive(Debug, Clone, Copy, PartialEq, Eq)]
pub struct ProgressSnapshot {
    /// Output timestamp in microseconds, which may start below zero.
    pub out_time_us: Option<i64>,
    /// Bytes written so far.
    pub total_size_bytes: Option<u64>,
    /// Speed in thousandths, where 1,000 is the playback speed.
    pub speed_milli: Option<u32>,
    /// Video frames so far.
    pub frame: Option<u64>,
    /// Video frames dropped so far.
    pub dropped_frames: Option<u64>,
}

impl DeepView for ProgressSnapshot {
    type V = ProgressSnapshot;

    open spec fn deep_view(&self) -> ProgressSnapshot {
        *self
    }
}

/// A record without any value.
pub open spec fn empty_progress() -> ProgressSnapshot {
    ProgressSnapshot {
        out_time_us: None,
        total_size_bytes: None,
        speed_milli: None,
        frame: None,
        dropped_frames: None,
    }
}

impl Default for ProgressSnapshot {
    fn default() -> (r: Self)
        ensures
            r == empty_progress(),
    {
        ProgressSnapshot {
            out_time_us: None,
            total_size_bytes: None,
            speed_milli: None,
            frame: None,
            dropped_frames: None,
        }
    }
}

/// What a running conversion reports.
#[derive(Debug, Clone, Copy, PartialEq, Eq)]
pub enum ProgressEvent {
    /// The external tool was started.
    Started,
    /// A complete intermediate record.
    Advanced(ProgressSnapshot),
    /// The terminal record.
    Finished(ProgressSnapshot),
}

impl DeepView for ProgressEvent {
    type V = ProgressEvent;

    open spec fn deep_view(&self) -> ProgressEvent {
        *self
    }
}

/// A plan and the place that may be written to.
#[derive(Debug, PartialEq, Eq)]
pub struct BackendExecution {
    plan: JobPlan,
    staging_path: FilePath,
}

/// A plan and the place that may be written to.
pub struct BackendExecutionView {
    /// What is to be done.
    pub plan: JobPlanView,
    /// The place that may be written to.
    pub staging_path: Seq<u8>,
}

impl View for BackendExecution {
    type V = BackendExecutionView;

    closed spec fn view(&self) -> BackendExecutionView {
        BackendExecutionView {
            plan: self.plan@,
            staging_path: self.staging_path@,
        }
    }
}

impl DeepView for BackendExecution {
    type V = BackendExecutionView;

    open spec fn deep_view(&self) -> BackendExecutionView {
        self@
    }
}

impl Clone for BackendExecution {
    fn clone(&self) -> (r: Self)
        ensures
            r@ == self@,
    {
        let r = BackendExecution {
            plan: self.plan.clone(),
            staging_path: self.staging_path.clone(),
        };
        r
    }
}

impl BackendExecution {
    /// A plan and the place that may be written to.
    pub fn new(plan: JobPlan, staging_path: FilePath) -> (r: Self)
        ensures
            r@ == (BackendExecutionView {
                plan: plan@,
                staging_path: staging_path@,
            }),
    {
        BackendExecution { plan, staging_path }
    }

    /// What is to be done.
    pub fn plan(&self) -> (r: &JobPlan)
        ensures
            r@ == self@.plan,
    {
        &self.plan
    }

    /// The place that may be written to.
    pub fn staging_path(&self) -> (r: &FilePath)
        ensures
            r@ == self@.staging_path,
    {
        &self.staging_path
    }
}

/// What is known of a successful conversion.
#[derive(Debug, PartialEq, Eq)]
pub struct BackendReport {
    elapsed: Duration,
    last_progress: Option<ProgressSnapshot>,
    warnings: Vec<String>,
}

/// What is known of a successful conversion.
pub struct BackendReportView {
    /// How long it took.
    pub elapsed: Duration,
    /// The last complete record.
    pub last_progress: Option<ProgressSnapshot>,
    /// What there is to know.
    pub warnings: Seq<Seq<char>>,
}

impl View for BackendReport {
    type V = BackendReportView;

    closed spec fn view(&self) -> BackendReportView {
        BackendReportView {
            elapsed: self.elapsed,
            last_progress: self.last_progress,
            warnings: self.warnings.deep_view(),
        }
    }
}

impl DeepView for BackendReport {
    type V = BackendReportView;

    open spec fn deep_view(&self) -> BackendReportView {
        self@
    }
}

impl Clone for BackendReport {
    fn clone(&self) -> (r: Self)
        ensures
            r@ == self@,
    {
        let r = BackendReport {
            elapsed: self.elapsed,
            last_progress: self.last_progress,
            warnings: text::copy_texts(&self.warnings),
        };
        r
    }
}

impl BackendReport {
    /// What is known of a successful conversion.
    pub fn new(elapsed: Duration, last_progress: Option<ProgressSnapshot>, warnings: Vec<String>) -> (r: Self)
        ensures
            r@ == (BackendReportView {
                elapsed: elapsed,
                last_progress: last_progress,
                warnings: warnings.deep_view(),
            }),
    {
        BackendReport { elapsed, last_progress, warnings }
    }

    /// How long it took.
    pub fn elapsed(&self) -> (r: Duration)
        ensures
            r == self@.elapsed,
    {
        self.elapsed
    }

    /// The last complete record.
    pub fn last_progress(&self) -> (r: Option<ProgressSnapshot>)
        ensures
            r == self@.last_progress,
    {
        self.last_progress
    }

    /// What there is to know.
    pub fn warnings(&self) -> (r: &Vec<String>)
        ensures
            r.deep_view() == self@.warnings,
    {
        &self.warnings
    }
}

/// Why the media backend failed.
#[derive(Debug, PartialEq, Eq)]
pub enum BackendError {
    /// A file could not be probed.
    Probe {
        /// The file.
        path: FilePath,
        /// What went wrong.
        source: String,
    },
    /// A conversion failed.
    Execute {
        /// What went wrong.
        source: String,
    },
    /// The tools could not be inspected.
    Capability {
        /// What went wrong.
        source: String,
    },
    /// The operation was cancelled and its process was reaped.
    Cancelled,
}

/// Why the media backend failed.
pub enum BackendErrorView {
    /// A file could not be probed.
    Probe {
        /// The file.
        path: Seq<u8>,
        /// What went wrong.
        source: Seq<char>,
    },
    /// A conversion failed.
    Execute {
        /// What went wrong.
        source: Seq<char>,
    },
    /// The tools could not be inspected.
    Capability {
        /// What went wrong.
        source: Seq<char>,
    },
    /// The operation was cancelled and its process was reaped.
    Cancelled,
}

impl View for BackendError {
    type V = BackendErrorView;

    open spec fn view(&self) -> BackendErrorView {
        match self {
            BackendError::Probe { path, source } => BackendErrorView::Probe {
                path: path@,
                source: source@,
            },
            BackendError::Execute { source } => BackendErrorView::Execute {
                source: source@,
            },
            BackendError::Capability { source } => BackendErrorView::Capability {
                source: source@,
            },
            BackendError::Cancelled => BackendErrorView::Cancelled,
        }
    }
}

impl DeepView for BackendError {
    type V = BackendErrorView;

    open spec fn deep_view(&self) -> BackendErrorView {
        self@
    }
}

impl Clone for BackendError {
    fn clone(&self) -> (r: Self)
        ensures
            r@ == self@,
    {
        match self {
            BackendError::Probe { path, source } => BackendError::Probe {
                path: path.clone(),
                source: source.clone(),
            },
            BackendError::Execute { source } => BackendError::Execute {
                source: source.clone(),
            },
            BackendError::Capability { source } => BackendError::Capability {
                source: source.clone(),
            },
            BackendError::Cancelled => BackendError::Cancelled,
        }
    }
}

impl BackendErrorView {
    /// The user-facing description.
    pub open spec fn message(self) -> Seq<char> {
        match self {
            BackendErrorView::Probe { path, source } => "failed to probe "@ + text::lossy(path) + ": "@ + source,
            BackendErrorView::Execute { source } => "media execution failed: "@ + source,
            BackendErrorView::Capability { source } => "media capability inspection failed: "@ + source,
            BackendErrorView::Cancelled => "media operation cancelled"@,
        }
    }
}

impl BackendError {
    /// The user-facing description.
    pub fn message(&self) -> (r: String)
        ensures
            r@ == self@.message(),
    {
        match self {
            BackendError::Probe { path, source } => {
                let mut out = text::concat3("failed to probe ", path.display().as_str(), ": ");
                text::push_text(&mut out, source.as_str());
                out
            },
            BackendError::Execute { source } => text::concat2("media execution failed: ", source.as_str()),
            BackendError::Capability { source } => text::concat2("media capability inspection failed: ", source.as_str()),
            BackendError::Cancelled => "media operation cancelled".to_owned(),
        }
    }
}

/// What a tool is used for.
#[derive(Debug, Clone, Copy, PartialEq, Eq, Structural)]
pub enum BackendToolRole {
    /// Conversion.
    Ffmpeg,
    /// Inspection.
    Ffprobe,
}

impl DeepView for BackendToolRole {
    type V = BackendToolRole;

    open spec fn deep_view(&self) -> BackendToolRole {
        *self
    }
}

/// Something that the tools can be asked for.
#[derive(Debug, PartialEq, Eq)]
pub enum MediaCapability {
    /// A decoder of this name.
    Decoder(String),
    /// An encoder of this name.
    Encoder(String),
    /// A container that can be read.
    Demuxer(String),
    /// A container that can be written.
    Muxer(String),
}

/// Something that the tools can be asked for.
pub enum MediaCapabilityView {
    /// A decoder of this name.
    Decoder(Seq<char>),
    /// An encoder of this name.
    Encoder(Seq<char>),
    /// A container that can be read.
    Demuxer(Seq<char>),
    /// A container that can be written.
    Muxer(Seq<char>),
}

impl View for MediaCapability {
    type V = MediaCapabilityView;

    open spec fn view(&self) -> MediaCapabilityView {
        match self {
            MediaCapability::Decoder(value) => MediaCapabilityView::Decoder(value@),
            MediaCapability::Encoder(value) => MediaCapabilityView::Encoder(value@),
            MediaCapability::Demuxer(value) => MediaCapabilityView::Demuxer(value@),
            MediaCapability::Muxer(value) => MediaCapabilityView::Muxer(value@),
        }
    }
}

impl DeepView for MediaCapability {
    type V = MediaCapabilityView;

    open spec fn deep_view(&self) -> MediaCapabilityView {
        self@
    }
}

impl Clone for MediaCapability {
    fn clone(&self) -> (r: Self)
        ensures
            r@ == self@,
    {
        match self {
            MediaCapability::Decoder(value) => MediaCapability::Decoder(value.clone()),
            MediaCapability::Encoder(value) => MediaCapability::Encoder(value.clone()),
            MediaCapability::Demuxer(value) => MediaCapability::Demuxer(value.clone()),
            MediaCapability::Muxer(value) => MediaCapability::Muxer(value.clone()),
        }
    }
}

impl MediaCapabilityView {
    /// The kind in machine output.
    pub open spec fn kind(self) -> Seq<char> {
        match self {
            MediaCapabilityView::Decoder(_) => "decoder"@,
            MediaCapabilityView::Encoder(_) => "encoder"@,
            MediaCapabilityView::Demuxer(_) => "demuxer"@,
            MediaCapabilityView::Muxer(_) => "muxer"@,
        }
    }

    /// The name that was asked for.
    pub open spec fn name(self) -> Seq<char> {
        match self {
            MediaCapabilityView::Decoder(name) => name,
            MediaCapabilityView::Encoder(name) => name,
            MediaCapabilityView::Demuxer(name) => name,
            MediaCapabilityView::Muxer(name) => name,
        }
    }
}

impl MediaCapability {
    /// The kind in machine output.
    pub fn kind(&self) -> (r: &'static str)
        ensures
            r@ == self@.kind(),
    {
        match self {
            MediaCapability::Decoder(_) => "decoder",
            MediaCapability::Encoder(_) => "encoder",
            MediaCapability::Demuxer(_) => "demuxer",
            MediaCapability::Muxer(_) => "muxer",
        }
    }

    /// The name that was asked for.
    pub fn name(&self) -> (r: &str)
        ensures
            r@ == self@.name(),
    {
        match self {
            MediaCapability::Decoder(name) => name.as_str(),
            MediaCapability::Encoder(name) => name.as_str(),
            MediaCapability::Demuxer(name) => name.as_str(),
            MediaCapability::Muxer(name) => name.as_str(),
        }
    }
}

/// What the tools are asked for.
#[derive(Debug, PartialEq, Eq)]
pub struct CapabilityRequest {
    required: Vec<MediaCapability>,
}

/// What the tools are asked for.
pub struct CapabilityRequestView {
    /// Everything that is asked for, in order.
    pub required: Seq<MediaCapabilityView>,
}

impl View for CapabilityRequest {
    type V = CapabilityRequestView;

    closed spec fn view(&self) -> CapabilityRequestView {
        CapabilityRequestView {
            required: self.required.deep_view(),
        }
    }
}

impl DeepView for CapabilityRequest {
    type V = CapabilityRequestView;

    open spec fn deep_view(&self) -> CapabilityRequestView {
        self@
    }
}

impl Clone for CapabilityRequest {
    fn clone(&self) -> (r: Self)
        ensures
            r@ == self@,
    {
        let r = CapabilityRequest {
            required: self.required.clone(),
        };
        proof {
            assert(r.required.deep_view() =~= self.required.deep_view());
        }
        r
    }
}

impl CapabilityRequest {
    /// What the tools are asked for.
    pub fn new(required: Vec<MediaCapability>) -> (r: Self)
        ensures
            r@ == (CapabilityRequestView {
                required: required.deep_view(),
            }),
    {
        CapabilityRequest { required }
    }

    /// Everything that is asked for, in order.
    pub fn required(&self) -> (r: &Vec<MediaCapability>)
        ensures
            r.deep_view() == self@.required,
    {
        &self.required
    }
}

/// Whether the tools offer something.
#[derive(Debug, PartialEq, Eq)]
pub struct CapabilityCheck {
    capability: MediaCapability,
    available: bool,
    detail: Option<String>,
}

/// Whether the tools offer something.
pub struct CapabilityCheckView {
    /// What was asked for.
    pub capability: MediaCapabilityView,
    /// Whether it is there.
    pub available: bool,
    /// More about it.
    pub detail: Option<Seq<char>>,
}

impl View for CapabilityCheck {
    type V = CapabilityCheckView;

    closed spec fn view(&self) -> CapabilityCheckView {
        CapabilityCheckView {
            capability: self.capability@,
            available: self.available,
            detail: self.detail.deep_view(),
        }
    }
}

impl DeepView for CapabilityCheck {
    type V = CapabilityCheckView;

    open spec fn deep_view(&self) -> CapabilityCheckView {
        self@
    }
}

impl Clone for CapabilityCheck {
    fn clone(&self) -> (r: Self)
        ensures
            r@ == self@,
    {
        let r = CapabilityCheck {
            capability: self.capability.clone(),
            available: self.available,
            detail: text::copy_text(&self.detail),
        };
        r
    }
}

impl CapabilityCheck {
    /// Whether the tools offer something.
    pub fn new(capability: MediaCapability, available: bool, detail: Option<String>) -> (r: Self)
        ensures
            r@ == (CapabilityCheckView {
                capability: capability@,
                available: available,
                detail: detail.deep_view(),
            }),
    {
        CapabilityCheck { capability, available, detail }
    }

    /// What was asked for.
    pub fn capability(&self) -> (r: &MediaCapability)
        ensures
            r@ == self@.capability,
    {
        &self.capability
    }

    /// Whether it is there.
    pub fn available(&self) -> (r: bool)
        ensures
            r == self@.available,
    {
        self.available
    }

    /// More about it.
    pub fn detail(&self) -> (r: Option<&str>)
        ensures
            r.deep_view() == self@.detail,
    {
        text::text_ref(&self.detail)
    }
}

/// A tool that was found.
#[derive(Debug, PartialEq, Eq)]
pub struct BackendToolInfo {
    role: BackendToolRole,
    path: FilePath,
    version: Option<String>,
}

/// A tool that was found.
pub struct BackendToolInfoView {
    /// What it is used for.
    pub role: BackendToolRole,
    /// Where it is.
    pub path: Seq<u8>,
    /// What it calls itself.
    pub version: Option<Seq<char>>,
}

impl View for BackendToolInfo {
    type V = BackendToolInfoView;

    closed spec fn view(&self) -> BackendToolInfoView {
        BackendToolInfoView {
            role: self.role,
            path: self.path@,
            version: self.version.deep_view(),
        }
    }
}

impl DeepView for BackendToolInfo {
    type V = BackendToolInfoView;

    open spec fn deep_view(&self) -> BackendToolInfoView {
        self@
    }
}

impl Clone for BackendToolInfo {
    fn clone(&self) -> (r: Self)
        ensures
            r@ == self@,
    {
        let r = BackendToolInfo {
            role: self.role,
            path: self.path.clone(),
            version: text::copy_text(&self.version),
        };
        r
    }
}

impl BackendToolInfo {
    /// A tool that was found.
    pub fn new(role: BackendToolRole, path: FilePath, version: Option<String>) -> (r: Self)
        ensures
            r@ == (BackendToolInfoView {
                role: role,
                path: path@,
                version: version.deep_view(),
            }),
    {
        BackendToolInfo { role, path, version }
    }

    /// What it is used for.
    pub fn role(&self) -> (r: BackendToolRole)
        ensures
            r == self@.role,
    {
        self.role
    }

    /// Where it is.
    pub fn path(&self) -> (r: &FilePath)
        ensures
            r@ == self@.path,
    {
        &self.path
    }

    /// What it calls itself.
    pub fn version(&self) -> (r: Option<&str>)
        ensures
            r.deep_view() == self@.version,
    {
        text::text_ref(&self.version)
    }
}

/// What the tools offer.
#[derive(Debug, PartialEq, Eq)]
pub struct BackendCapabilities {
    backend_name: String,
    tools: Vec<BackendToolInfo>,
    checks: Vec<CapabilityCheck>,
    warnings: Vec<String>,
}

/// What the tools offer.
pub struct BackendCapabilitiesView {
    /// The name of the backend.
    pub backend_name: Seq<char>,
    /// The tools that were found.
    pub tools: Seq<BackendToolInfoView>,
    /// What was asked for, in order.
    pub checks: Seq<CapabilityCheckView>,
    /// What there is to know.
    pub warnings: Seq<Seq<char>>,
}

impl View for BackendCapabilities {
    type V = BackendCapabilitiesView;

    closed spec fn view(&self) -> BackendCapabilitiesView {
        BackendCapabilitiesView {
            backend_name: self.backend_name@,
            tools: self.tools.deep_view(),
            checks: self.checks.deep_view(),
            warnings: self.warnings.deep_view(),
        }
    }
}

impl DeepView for BackendCapabilities {
    type V = BackendCapabilitiesView;

    open spec fn deep_view(&self) -> BackendCapabilitiesView {
        self@
    }
}

impl Clone for BackendCapabilities {
    fn clone(&self) -> (r: Self)
        ensures
            r@ == self@,
    {
        let r = BackendCapabilities {
            backend_name: self.backend_name.clone(),
            tools: self.tools.clone(),
            checks: self.checks.clone(),
            warnings: text::copy_texts(&self.warnings),
        };
        proof {
            assert(r.tools.deep_view() =~= self.tools.deep_view());
            assert(r.checks.deep_view() =~= self.checks.deep_view());
        }
        r
    }
}

impl BackendCapabilities {
    /// What the tools offer.
    pub fn new(backend_name: &str, tools: Vec<BackendToolInfo>, checks: Vec<CapabilityCheck>, warnings: Vec<String>) -> (r: Self)
        ensures
            r@ == (BackendCapabilitiesView {
                backend_name: backend_name@,
                tools: tools.deep_view(),
                checks: checks.deep_view(),
                warnings: warnings.deep_view(),
            }),
    {
        BackendCapabilities { backend_name: backend_name.to_owned(), tools, checks, warnings }
    }

    /// The name of the backend.
    pub fn backend_name(&self) -> (r: &str)
        ensures
            r@ == self@.backend_name,
    {
        self.backend_name.as_str()
    }

    /// The tools that were found.
    pub fn tools(&self) -> (r: &Vec<BackendToolInfo>)
        ensures
            r.deep_view() == self@.tools,
    {
        &self.tools
    }

    /// What was asked for, in order.
    pub fn checks(&self) -> (r: &Vec<CapabilityCheck>)
        ensures
            r.deep_view() == self@.checks,
    {
        &self.checks
    }

    /// What there is to know.
    pub fn warnings(&self) -> (r: &Vec<String>)
        ensures
            r.deep_view() == self@.warnings,
    {
        &self.warnings
    }
}

impl BackendCapabilitiesView {
    /// Whether everything that was asked for is there.
    pub open spec fn all_available(self) -> bool {
        forall|i: int| 0 <= i < self.checks.len() ==> (#[trigger] self.checks[i]).available
    }
}

impl BackendCapabilities {
    /// Whether everything that was asked for is there.
    pub fn all_available(&self) -> (r: bool)
        ensures
            r == self@.all_available(),
    {
        let mut i: usize = 0;
        while i < self.checks.len()
            invariant
                i <= self.checks@.len(),
                forall|j: int| 0 <= j < i ==> (#[trigger] self@.checks[j]).available,
            decreases self.checks@.len() - i,
        {
            proof {
                assert(self@.checks[i as int] == self.checks@[i as int]@);
            }
            if !self.checks[i].available() {
                return false;
            }
            i = i + 1;
        }
        true
    }
}

} // verus!
