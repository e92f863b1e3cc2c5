//! Plans of conversions and remuxes.
use vstd::prelude::*;

use crate::media;
use crate::media::{Chapter, ChapterView, MediaInfo, MediaInfoView};
use crate::model;
use crate::model::{
    ChannelCount, DurationMicros, Metadata, MetadataView, ModelError, ModelErrorView, StreamIndex,
    StreamTiming, StreamTimingView,
};
use crate::path;
use crate::path::FilePath;
use crate::policy::{
    CompatibilityPolicy, PolicyError, PolicyErrorView, PolicyView,
};
use crate::stream::{
    AudioStream, AudioStreamView, Dispositions, DispositionsView, StreamInfo, StreamInfoView,
};
use crate::target::{AudioTarget, TargetView};
use crate::text;

verus! {

/// What happens to the audio of the source.
#[derive(Debug, Clone, Copy, PartialEq, Eq, Structural)]
#[non_exhaustive]
pub enum OutputMode {
    /// Encoded audio is added behind the streams of the source.
    Add,
    /// Encoded audio takes the place of its source.
    Replace,
    /// The audio of the source is dropped.
    OnlyNew,
}

/// Which audio stream a remux makes the default.
#[derive(Debug, Clone, Copy, PartialEq, Eq)]
#[non_exhaustive]
pub enum AudioSelector {
    /// The first compatible one.
    FirstCompatible,
    /// The one with this index.
    StreamIndex(StreamIndex),
}

/// Which audio stream a remux makes the default.
pub enum SelectorView {
    /// The first compatible one.
    FirstCompatible,
    /// The one with this index.
    StreamIndex(u32),
}

impl View for AudioSelector {
    type V = SelectorView;

    open spec fn view(&self) -> SelectorView {
        match *self {
            AudioSelector::FirstCompatible => SelectorView::FirstCompatible,
            AudioSelector::StreamIndex(index) => SelectorView::StreamIndex(index@),
        }
    }
}

/// What is asked for.
#[derive(Debug, Clone, Copy, PartialEq, Eq)]
#[non_exhaustive]
pub enum RequestedAction {
    /// Encode incompatible audio.
    Convert,
    /// Copy everything and choose the default audio.
    RemuxOnly {
        /// Which audio to choose.
        selection: AudioSelector,
    },
}

/// What is asked for.
pub enum ActionView {
    /// Encode incompatible audio.
    Convert,
    /// Copy everything and choose the default audio.
    RemuxOnly { selection: SelectorView },
}

impl View for RequestedAction {
    type V = ActionView;

    open spec fn view(&self) -> ActionView {
        match *self {
            RequestedAction::Convert => ActionView::Convert,
            RequestedAction::RemuxOnly { selection } => ActionView::RemuxOnly {
                selection: selection@,
            },
        }
    }
}

/// Everything that a plan depends on besides the media file.
#[derive(Debug, PartialEq, Eq)]
pub struct PlanningPolicy {
    compatibility: CompatibilityPolicy,
    target: AudioTarget,
    output_mode: OutputMode,
    action: RequestedAction,
    output_path: FilePath,
}

/// Everything that a plan depends on besides the media file.
pub struct PlanningView {
    /// Rules of the playback device.
    pub compatibility: PolicyView,
    /// Target of encoded audio.
    pub target: TargetView,
    /// What happens to the audio of the source.
    pub output_mode: OutputMode,
    /// What is asked for.
    pub action: ActionView,
    /// Where the output goes.
    pub output_path: Seq<u8>,
}

impl View for PlanningPolicy {
    type V = PlanningView;

    closed spec fn view(&self) -> PlanningView {
        PlanningView {
            compatibility: self.compatibility@,
            target: self.target@,
            output_mode: self.output_mode,
            action: self.action@,
            output_path: self.output_path@,
        }
    }
}

impl PlanningPolicy {
    /// A policy of the given parts.
    pub fn new(
        compatibility: CompatibilityPolicy,
        target: AudioTarget,
        output_mode: OutputMode,
        action: RequestedAction,
        output_path: FilePath,
    ) -> (r: Self)
        ensures
            r@ == (PlanningView {
                compatibility: compatibility@,
                target: target@,
                output_mode,
                action: action@,
                output_path: output_path@,
            }),
    {
        PlanningPolicy { compatibility, target, output_mode, action, output_path }
    }

    /// The rules of the playback device.
    pub fn compatibility(&self) -> (r: &CompatibilityPolicy)
        ensures
            r@ == self@.compatibility,
    {
        &self.compatibility
    }

    /// The target of encoded audio.
    pub fn target(&self) -> (r: &AudioTarget)
        ensures
            r@ == self@.target,
    {
        &self.target
    }

    /// What happens to the audio of the source.
    pub fn output_mode(&self) -> (r: OutputMode)
        ensures
            r == self@.output_mode,
    {
        self.output_mode
    }

    /// What is asked for.
    pub fn action(&self) -> (r: RequestedAction)
        ensures
            r@ == self@.action,
    {
        self.action
    }

    /// Where the output goes.
    pub fn output_path(&self) -> (r: &FilePath)
        ensures
            r@ == self@.output_path,
    {
        &self.output_path
    }
}

/// Why there is no plan.
#[derive(Debug, PartialEq, Eq)]
#[non_exhaustive]
pub enum PlanError {
    /// The input is not a Matroska file with its usual extension.
    UnsupportedContainer,
    /// The input has no audio.
    NoAudioStreams,
    /// The output would replace the input.
    InputEqualsOutput,
    /// The compatibility of a stream could not be told.
    Policy(PolicyError),
    /// A planned value was not valid.
    Model(ModelError),
    /// The selected stream is not compatible audio.
    InvalidRemuxSelection,
    /// No audio of the input is compatible.
    NoCompatibleRemuxCandidate,
    /// All audio is compatible, so nothing would be left.
    NothingToDo,
}

/// Why there is no plan.
pub enum PlanErrorView {
    /// The input is not a Matroska file with its usual extension.
    UnsupportedContainer,
    /// The input has no audio.
    NoAudioStreams,
    /// The output would replace the input.
    InputEqualsOutput,
    /// The compatibility of a stream could not be told.
    Policy(PolicyErrorView),
    /// A planned value was not valid.
    Model(ModelErrorView),
    /// The selected stream is not compatible audio.
    InvalidRemuxSelection,
    /// No audio of the input is compatible.
    NoCompatibleRemuxCandidate,
    /// All audio is compatible, so nothing would be left.
    NothingToDo,
}

impl View for PlanError {
    type V = PlanErrorView;

    open spec fn view(&self) -> PlanErrorView {
        match *self {
            PlanError::UnsupportedContainer => PlanErrorView::UnsupportedContainer,
            PlanError::NoAudioStreams => PlanErrorView::NoAudioStreams,
            PlanError::InputEqualsOutput => PlanErrorView::InputEqualsOutput,
            PlanError::Policy(e) => PlanErrorView::Policy(e@),
            PlanError::Model(e) => PlanErrorView::Model(e@),
            PlanError::InvalidRemuxSelection => PlanErrorView::InvalidRemuxSelection,
            PlanError::NoCompatibleRemuxCandidate => PlanErrorView::NoCompatibleRemuxCandidate,
            PlanError::NothingToDo => PlanErrorView::NothingToDo,
        }
    }
}

impl PlanErrorView {
    /// The user-facing description.
    pub open spec fn message(self) -> Seq<char> {
        match self {
            PlanErrorView::UnsupportedContainer => "input is not a Matroska .mkv file"@,
            PlanErrorView::NoAudioStreams => "input contains no audio streams"@,
            PlanErrorView::InputEqualsOutput => "input and output paths are equal"@,
            PlanErrorView::Policy(e) => e.message(),
            PlanErrorView::Model(e) => e.message(),
            PlanErrorView::InvalidRemuxSelection =>
                "remux selection does not identify a compatible audio stream"@,
            PlanErrorView::NoCompatibleRemuxCandidate =>
                "input contains no compatible audio stream for remux"@,
            PlanErrorView::NothingToDo => "only-new has no incompatible audio to derive"@,
        }
    }
}

impl PlanError {
    /// The user-facing description.
    pub fn message(&self) -> (r: String)
        ensures
            r@ == self@.message(),
    {
        match self {
            PlanError::UnsupportedContainer => "input is not a Matroska .mkv file".to_owned(),
            PlanError::NoAudioStreams => "input contains no audio streams".to_owned(),
            PlanError::InputEqualsOutput => "input and output paths are equal".to_owned(),
            PlanError::Policy(e) => e.message(),
            PlanError::Model(e) => e.message(),
            PlanError::InvalidRemuxSelection =>
                "remux selection does not identify a compatible audio stream".to_owned(),
            PlanError::NoCompatibleRemuxCandidate =>
                "input contains no compatible audio stream for remux".to_owned(),
            PlanError::NothingToDo => "only-new has no incompatible audio to derive".to_owned(),
        }
    }
}

/// Why nothing is done.
#[derive(Debug, Clone, Copy, PartialEq, Eq, Structural)]
#[non_exhaustive]
pub enum SkipReason {
    /// All audio is compatible.
    NothingToDo,
}

/// The kind of work that a plan is.
#[derive(Debug, Clone, Copy, PartialEq, Eq, Structural)]
#[non_exhaustive]
pub enum JobAction {
    /// Audio is encoded.
    Transcode,
    /// Everything is copied.
    RemuxOnly,
}

/// Something to know about a plan.
#[derive(Debug, Clone, Copy, PartialEq, Eq, Structural)]
#[non_exhaustive]
pub enum PlanWarning {
    /// The profile is a deliberately conservative baseline.
    ConservativeCompatibilityProfile,
    /// The probe met something unusual.
    ProbeWarningsPresent {
        /// How often.
        count: usize,
    },
}

impl DeepView for PlanWarning {
    type V = PlanWarning;

    open spec fn deep_view(&self) -> PlanWarning {
        *self
    }
}

/// The metadata of encoded audio.
#[derive(Debug, PartialEq, Eq)]
pub struct MetadataPlan {
    metadata: Metadata,
}

impl View for MetadataPlan {
    type V = MetadataView;

    closed spec fn view(&self) -> MetadataView {
        self.metadata@
    }
}

impl MetadataPlan {
    /// The metadata.
    pub fn metadata(&self) -> (r: &Metadata)
        ensures
            r@ == self@,
    {
        &self.metadata
    }
}

/// Where one output stream comes from.
#[derive(Debug, PartialEq, Eq)]
#[non_exhaustive]
pub enum OutputStreamPlan {
    /// A stream of the source is copied.
    Copy {
        /// Index of the source stream.
        source: StreamIndex,
        /// Disposition flags of the output stream.
        dispositions: Dispositions,
    },
    /// An audio stream of the source is encoded.
    EncodeAudio {
        /// Index of the source stream.
        source: StreamIndex,
        /// Codec, bitrate and layout.
        target: AudioTarget,
        /// Number of channels of the output stream.
        output_channels: ChannelCount,
        /// Metadata of the output stream.
        metadata: MetadataPlan,
        /// Disposition flags of the output stream.
        dispositions: Dispositions,
    },
}

/// Where one output stream comes from.
pub enum OperationView {
    /// A stream of the source is copied.
    Copy { source: u32, dispositions: DispositionsView },
    /// An audio stream of the source is encoded.
    EncodeAudio {
        source: u32,
        target: TargetView,
        output_channels: u16,
        metadata: MetadataView,
        dispositions: DispositionsView,
    },
}

impl OperationView {
    /// The index of the source stream.
    pub open spec fn source(self) -> u32 {
        match self {
            OperationView::Copy { source, .. } => source,
            OperationView::EncodeAudio { source, .. } => source,
        }
    }

    /// The disposition flags of the output stream.
    pub open spec fn dispositions(self) -> DispositionsView {
        match self {
            OperationView::Copy { dispositions, .. } => dispositions,
            OperationView::EncodeAudio { dispositions, .. } => dispositions,
        }
    }
}

impl View for OutputStreamPlan {
    type V = OperationView;

    open spec fn view(&self) -> OperationView {
        match *self {
            OutputStreamPlan::Copy { source, dispositions } => OperationView::Copy {
                source: source@,
                dispositions: dispositions@,
            },
            OutputStreamPlan::EncodeAudio {
                source,
                target,
                output_channels,
                metadata,
                dispositions,
            } => OperationView::EncodeAudio {
                source: source@,
                target: target@,
                output_channels: output_channels@,
                metadata: metadata@,
                dispositions: dispositions@,
            },
        }
    }
}

impl DeepView for OutputStreamPlan {
    type V = OperationView;

    open spec fn deep_view(&self) -> OperationView {
        self@
    }
}

impl Clone for OutputStreamPlan {
    fn clone(&self) -> (r: Self)
        ensures
            r@ == self@,
    {
        match self {
            OutputStreamPlan::Copy { source, dispositions } => OutputStreamPlan::Copy {
                source: *source,
                dispositions: dispositions.clone(),
            },
            OutputStreamPlan::EncodeAudio {
                source,
                target,
                output_channels,
                metadata,
                dispositions,
            } => OutputStreamPlan::EncodeAudio {
                source: *source,
                target: *target,
                output_channels: *output_channels,
                metadata: MetadataPlan { metadata: metadata.metadata.clone() },
                dispositions: dispositions.clone(),
            },
        }
    }
}

impl OutputStreamPlan {
    /// The index of the source stream.
    pub fn source(&self) -> (r: StreamIndex)
        ensures
            r@ == self@.source(),
    {
        match self {
            OutputStreamPlan::Copy { source, .. } => *source,
            OutputStreamPlan::EncodeAudio { source, .. } => *source,
        }
    }

    /// Whether audio is encoded.
    pub fn is_encode(&self) -> (r: bool)
        ensures
            r == (self@ is EncodeAudio),
    {
        match self {
            OutputStreamPlan::Copy { .. } => false,
            OutputStreamPlan::EncodeAudio { .. } => true,
        }
    }

    /// The disposition flags of the output stream.
    pub fn dispositions(&self) -> (r: &Dispositions)
        ensures
            r@ == self@.dispositions(),
    {
        match self {
            OutputStreamPlan::Copy { dispositions, .. } => dispositions,
            OutputStreamPlan::EncodeAudio { dispositions, .. } => dispositions,
        }
    }
}

/// The codec that an output stream is to have.
#[derive(Debug, PartialEq, Eq)]
#[non_exhaustive]
pub enum ExpectedCodec {
    /// The codec of the source.
    Copied(String),
    /// The codec with this label.
    Encoded(&'static str),
}

/// The codec that an output stream is to have.
pub enum ExpectedCodecView {
    /// The codec of the source.
    Copied(Seq<char>),
    /// The codec with this label.
    Encoded(Seq<char>),
}

impl View for ExpectedCodec {
    type V = ExpectedCodecView;

    open spec fn view(&self) -> ExpectedCodecView {
        match *self {
            ExpectedCodec::Copied(name) => ExpectedCodecView::Copied(name@),
            ExpectedCodec::Encoded(label) => ExpectedCodecView::Encoded(label@),
        }
    }
}

impl Clone for ExpectedCodec {
    fn clone(&self) -> (r: Self)
        ensures
            r@ == self@,
    {
        match self {
            ExpectedCodec::Copied(name) => ExpectedCodec::Copied(name.clone()),
            ExpectedCodec::Encoded(label) => ExpectedCodec::Encoded(*label),
        }
    }
}

/// The kind that an output stream is to have.
#[derive(Debug, PartialEq, Eq)]
#[non_exhaustive]
pub enum ExpectedStreamKind {
    /// Video.
    Video,
    /// Audio.
    Audio,
    /// Subtitles.
    Subtitle,
    /// An attached file.
    Attachment,
    /// Data.
    Data,
    /// Another kind, as it was probed.
    Unknown(String),
}

/// The kind that an output stream is to have.
pub enum KindView {
    /// Video.
    Video,
    /// Audio.
    Audio,
    /// Subtitles.
    Subtitle,
    /// An attached file.
    Attachment,
    /// Data.
    Data,
    /// Another kind.
    Unknown(Seq<char>),
}

impl View for ExpectedStreamKind {
    type V = KindView;

    open spec fn view(&self) -> KindView {
        match *self {
            ExpectedStreamKind::Video => KindView::Video,
            ExpectedStreamKind::Audio => KindView::Audio,
            ExpectedStreamKind::Subtitle => KindView::Subtitle,
            ExpectedStreamKind::Attachment => KindView::Attachment,
            ExpectedStreamKind::Data => KindView::Data,
            ExpectedStreamKind::Unknown(kind) => KindView::Unknown(kind@),
        }
    }
}

impl Clone for ExpectedStreamKind {
    fn clone(&self) -> (r: Self)
        ensures
            r@ == self@,
    {
        match self {
            ExpectedStreamKind::Video => ExpectedStreamKind::Video,
            ExpectedStreamKind::Audio => ExpectedStreamKind::Audio,
            ExpectedStreamKind::Subtitle => ExpectedStreamKind::Subtitle,
            ExpectedStreamKind::Attachment => ExpectedStreamKind::Attachment,
            ExpectedStreamKind::Data => ExpectedStreamKind::Data,
            ExpectedStreamKind::Unknown(kind) => ExpectedStreamKind::Unknown(kind.clone()),
        }
    }
}

/// The kind of a stream.
pub open spec fn kind_of(stream: StreamInfoView) -> KindView {
    match stream {
        StreamInfoView::Video(_) => KindView::Video,
        StreamInfoView::Audio(_) => KindView::Audio,
        StreamInfoView::Subtitle(_) => KindView::Subtitle,
        StreamInfoView::Attachment(_) => KindView::Attachment,
        StreamInfoView::Data(_) => KindView::Data,
        StreamInfoView::Unknown(s) => KindView::Unknown(s.kind),
    }
}

/// The kind of a stream.
pub fn stream_kind(stream: &StreamInfo) -> (r: ExpectedStreamKind)
    ensures
        r@ == kind_of(stream@),
{
    match stream {
        StreamInfo::Video(_) => ExpectedStreamKind::Video,
        StreamInfo::Audio(_) => ExpectedStreamKind::Audio,
        StreamInfo::Subtitle(_) => ExpectedStreamKind::Subtitle,
        StreamInfo::Attachment(_) => ExpectedStreamKind::Attachment,
        StreamInfo::Data(_) => ExpectedStreamKind::Data,
        StreamInfo::Unknown(s) => ExpectedStreamKind::Unknown(s.kind().to_owned()),
    }
}

/// What an output stream is to look like.
#[derive(Debug, PartialEq, Eq)]
pub struct ExpectedStream {
    source: StreamIndex,
    kind: ExpectedStreamKind,
    codec: ExpectedCodec,
    timing: StreamTiming,
    metadata: Metadata,
    dispositions: Dispositions,
}

/// What an output stream is to look like.
pub struct ExpectedStreamView {
    /// Index of the source stream.
    pub source: u32,
    /// Kind.
    pub kind: KindView,
    /// Codec.
    pub codec: ExpectedCodecView,
    /// Start and duration.
    pub timing: StreamTimingView,
    /// Metadata.
    pub metadata: MetadataView,
    /// Disposition flags.
    pub dispositions: DispositionsView,
}

impl View for ExpectedStream {
    type V = ExpectedStreamView;

    closed spec fn view(&self) -> ExpectedStreamView {
        ExpectedStreamView {
            source: self.source@,
            kind: self.kind@,
            codec: self.codec@,
            timing: self.timing@,
            metadata: self.metadata@,
            dispositions: self.dispositions@,
        }
    }
}

impl DeepView for ExpectedStream {
    type V = ExpectedStreamView;

    open spec fn deep_view(&self) -> ExpectedStreamView {
        self@
    }
}

impl Clone for ExpectedStream {
    fn clone(&self) -> (r: Self)
        ensures
            r@ == self@,
    {
        ExpectedStream {
            source: self.source,
            kind: self.kind.clone(),
            codec: self.codec.clone(),
            timing: self.timing,
            metadata: self.metadata.clone(),
            dispositions: self.dispositions.clone(),
        }
    }
}

impl ExpectedStream {
    /// The index of the source stream.
    pub fn source(&self) -> (r: StreamIndex)
        ensures
            r@ == self@.source,
    {
        self.source
    }

    /// The kind.
    pub fn kind(&self) -> (r: &ExpectedStreamKind)
        ensures
            r@ == self@.kind,
    {
        &self.kind
    }

    /// The codec.
    pub fn codec(&self) -> (r: &ExpectedCodec)
        ensures
            r@ == self@.codec,
    {
        &self.codec
    }

    /// Start and duration.
    pub fn timing(&self) -> (r: &StreamTiming)
        ensures
            r@ == self@.timing,
    {
        &self.timing
    }

    /// The metadata.
    pub fn metadata(&self) -> (r: &Metadata)
        ensures
            r@ == self@.metadata,
    {
        &self.metadata
    }

    /// The disposition flags.
    pub fn dispositions(&self) -> (r: &Dispositions)
        ensures
            r@ == self@.dispositions,
    {
        &self.dispositions
    }
}

/// What the output is to look like.
#[derive(Debug, PartialEq, Eq)]
pub struct OutputExpectations {
    streams: Vec<ExpectedStream>,
    chapters: Vec<Chapter>,
    global_metadata: Metadata,
}

/// What the output is to look like.
pub struct ExpectationsView {
    /// Streams in output order.
    pub streams: Seq<ExpectedStreamView>,
    /// Chapters.
    pub chapters: Seq<ChapterView>,
    /// Global metadata.
    pub global_metadata: MetadataView,
}

impl View for OutputExpectations {
    type V = ExpectationsView;

    closed spec fn view(&self) -> ExpectationsView {
        ExpectationsView {
            streams: self.streams.deep_view(),
            chapters: self.chapters.deep_view(),
            global_metadata: self.global_metadata@,
        }
    }
}

impl OutputExpectations {
    /// The streams in output order.
    pub fn streams(&self) -> (r: &Vec<ExpectedStream>)
        ensures
            r.deep_view() == self@.streams,
    {
        &self.streams
    }

    /// The number of chapters.
    pub fn chapter_count(&self) -> (r: usize)
        ensures
            r == self@.chapters.len(),
    {
        self.chapters.len()
    }

    /// The chapters.
    pub fn chapters(&self) -> (r: &Vec<Chapter>)
        ensures
            r.deep_view() == self@.chapters,
    {
        &self.chapters
    }

    /// The global metadata.
    pub fn global_metadata(&self) -> (r: &Metadata)
        ensures
            r@ == self@.global_metadata,
    {
        &self.global_metadata
    }
}

/// A plan that can be carried out.
#[derive(Debug, PartialEq, Eq)]
pub struct JobPlan {
    input: FilePath,
    output: FilePath,
    action: JobAction,
    duration: Option<DurationMicros>,
    streams: Vec<OutputStreamPlan>,
    copy_chapters: bool,
    copy_global_metadata: bool,
    warnings: Vec<PlanWarning>,
    expected: OutputExpectations,
}

/// A plan that can be carried out.
pub struct JobPlanView {
    /// Where the input is.
    pub input: Seq<u8>,
    /// Where the output goes.
    pub output: Seq<u8>,
    /// Kind of work.
    pub action: JobAction,
    /// Duration of the input in microseconds.
    pub duration: Option<u64>,
    /// Output streams in order.
    pub streams: Seq<OperationView>,
    /// Whether chapters are copied.
    pub copy_chapters: bool,
    /// Whether global metadata is copied.
    pub copy_global_metadata: bool,
    /// What there is to know.
    pub warnings: Seq<PlanWarning>,
    /// What the output is to look like.
    pub expected: ExpectationsView,
}

impl View for JobPlan {
    type V = JobPlanView;

    closed spec fn view(&self) -> JobPlanView {
        JobPlanView {
            input: self.input@,
            output: self.output@,
            action: self.action,
            duration: self.duration.deep_view(),
            streams: self.streams.deep_view(),
            copy_chapters: self.copy_chapters,
            copy_global_metadata: self.copy_global_metadata,
            warnings: self.warnings@,
            expected: self.expected@,
        }
    }
}

impl DeepView for JobPlan {
    type V = JobPlanView;

    open spec fn deep_view(&self) -> JobPlanView {
        self@
    }
}

impl Clone for JobPlan {
    fn clone(&self) -> (r: Self)
        ensures
            r@ == self@,
    {
        let streams = self.streams.clone();
        let warnings = self.warnings.clone();
        let expected = self.expected.streams.clone();
        proof {
            assert(streams.deep_view() =~= self.streams.deep_view());
            assert(warnings@ =~= self.warnings@);
            assert(expected.deep_view() =~= self.expected.streams.deep_view());
        }
        JobPlan {
            input: self.input.clone(),
            output: self.output.clone(),
            action: self.action,
            duration: self.duration,
            streams,
            copy_chapters: self.copy_chapters,
            copy_global_metadata: self.copy_global_metadata,
            warnings,
            expected: OutputExpectations {
                streams: expected,
                chapters: media::copy_chapters(&self.expected.chapters),
                global_metadata: self.expected.global_metadata.clone(),
            },
        }
    }
}

impl JobPlan {
    /// Where the input is.
    pub fn input(&self) -> (r: &FilePath)
        ensures
            r@ == self@.input,
    {
        &self.input
    }

    /// Where the output goes.
    pub fn output(&self) -> (r: &FilePath)
        ensures
            r@ == self@.output,
    {
        &self.output
    }

    /// The kind of work.
    pub fn action(&self) -> (r: JobAction)
        ensures
            r == self@.action,
    {
        self.action
    }

    /// The duration of the input.
    pub fn duration(&self) -> (r: Option<DurationMicros>)
        ensures
            r.deep_view() == self@.duration,
    {
        self.duration
    }

    /// The output streams in order.
    pub fn streams(&self) -> (r: &Vec<OutputStreamPlan>)
        ensures
            r.deep_view() == self@.streams,
    {
        &self.streams
    }

    /// Whether chapters are copied.
    pub fn copy_chapters(&self) -> (r: bool)
        ensures
            r == self@.copy_chapters,
    {
        self.copy_chapters
    }

    /// Whether global metadata is copied.
    pub fn copy_global_metadata(&self) -> (r: bool)
        ensures
            r == self@.copy_global_metadata,
    {
        self.copy_global_metadata
    }

    /// What there is to know about the plan.
    pub fn warnings(&self) -> (r: &Vec<PlanWarning>)
        ensures
            r@ == self@.warnings,
    {
        &self.warnings
    }

    /// What the output is to look like.
    pub fn expected(&self) -> (r: &OutputExpectations)
        ensures
            r@ == self@.expected,
    {
        &self.expected
    }
}

/// What planning comes to.
#[derive(Debug, PartialEq, Eq)]
#[non_exhaustive]
pub enum PlanOutcome {
    /// There is work to do.
    Execute(JobPlan),
    /// There is nothing to do.
    Skip(SkipReason),
}

/// What planning comes to.
pub enum PlanOutcomeView {
    /// There is work to do.
    Execute(JobPlanView),
    /// There is nothing to do.
    Skip(SkipReason),
}

impl View for PlanOutcome {
    type V = PlanOutcomeView;

    open spec fn view(&self) -> PlanOutcomeView {
        match *self {
            PlanOutcome::Execute(plan) => PlanOutcomeView::Execute(plan@),
            PlanOutcome::Skip(reason) => PlanOutcomeView::Skip(reason),
        }
    }
}

impl DeepView for PlanOutcome {
    type V = PlanOutcomeView;

    open spec fn deep_view(&self) -> PlanOutcomeView {
        self@
    }
}

impl Clone for PlanOutcome {
    fn clone(&self) -> (r: Self)
        ensures
            r@ == self@,
    {
        match self {
            PlanOutcome::Execute(plan) => PlanOutcome::Execute(plan.clone()),
            PlanOutcome::Skip(reason) => PlanOutcome::Skip(*reason),
        }
    }
}

/// Why a media file cannot be planned for at all.
pub open spec fn media_fault(media: MediaInfoView, policy: PlanningView) -> Option<PlanErrorView> {
    if !path::is_mkv(media.path) || !media.format.is_matroska() {
        Some(PlanErrorView::UnsupportedContainer)
    } else if media::audio_of(media.streams).len() == 0 {
        Some(PlanErrorView::NoAudioStreams)
    } else if path::same_path(media.path, policy.output_path) {
        Some(PlanErrorView::InputEqualsOutput)
    } else {
        None
    }
}

/// The first audio stream whose compatibility cannot be told, by its error.
pub open spec fn policy_fault(streams: Seq<StreamInfoView>, policy: PolicyView) -> Option<
    PolicyErrorView,
>
    decreases streams.len(),
{
    if streams.len() == 0 {
        None
    } else if policy_fault(streams.drop_last(), policy) is Some {
        policy_fault(streams.drop_last(), policy)
    } else {
        match streams.last() {
            StreamInfoView::Audio(stream) => match policy.classify(stream) {
                Ok(_) => None,
                Err(e) => Some(e),
            },
            _ => None,
        }
    }
}

/// Whether a stream is audio that the device does not accept.
pub open spec fn needs_encode(policy: PolicyView, stream: StreamInfoView) -> bool {
    stream is Audio && (policy.classify(stream->Audio_0) matches Ok(c) && c is Incompatible)
}

/// Whether a stream is audio that the device accepts.
pub open spec fn is_compatible(policy: PolicyView, stream: StreamInfoView) -> bool {
    stream is Audio && (policy.classify(stream->Audio_0) matches Ok(c) && c is Compatible)
}

/// The audio streams that the device does not accept, in order.
pub open spec fn incompatible(streams: Seq<StreamInfoView>, policy: PolicyView) -> Seq<
    AudioStreamView,
>
    decreases streams.len(),
{
    if streams.len() == 0 {
        seq![]
    } else if needs_encode(policy, streams.last()) {
        incompatible(streams.drop_last(), policy).push(streams.last()->Audio_0)
    } else {
        incompatible(streams.drop_last(), policy)
    }
}

/// The indices of the audio streams that the device accepts, in order.
pub open spec fn compatible_indices(streams: Seq<StreamInfoView>, policy: PolicyView) -> Seq<u32>
    decreases streams.len(),
{
    if streams.len() == 0 {
        seq![]
    } else if is_compatible(policy, streams.last()) {
        compatible_indices(streams.drop_last(), policy).push(streams.last().index())
    } else {
        compatible_indices(streams.drop_last(), policy)
    }
}

/// Whether some audio stream is marked as default.
pub open spec fn any_default(streams: Seq<StreamInfoView>) -> bool {
    exists|i: int|
        0 <= i < streams.len() && #[trigger] streams[i] is Audio && streams[i].common().is_default()
}

/// The title of encoded audio: that of the source with the codec and layout behind it.
pub open spec fn derived_title(target: TargetView, stream: AudioStreamView) -> Seq<char> {
    let suffix = target.codec_label() + " "@ + target.layout_label(stream.channels.count);
    match model::lookup(stream.common.metadata, "title"@) {
        Some(title) => title + " ["@ + suffix + "]"@,
        None => suffix,
    }
}

/// A stream copied with the given dispositions.
pub open spec fn copied(stream: StreamInfoView, dispositions: DispositionsView) -> OperationView {
    OperationView::Copy { source: stream.index(), dispositions }
}

/// An audio stream encoded with the given dispositions.
pub open spec fn encoded(
    stream: AudioStreamView,
    target: TargetView,
    dispositions: DispositionsView,
) -> OperationView {
    OperationView::EncodeAudio {
        source: stream.common.index,
        target,
        output_channels: target.output_channels(stream.channels.count),
        metadata: stream.common.metadata.insert("title"@, derived_title(target, stream)),
        dispositions,
    }
}

/// A source stream as it stands in the output where encoded audio is added: audio that is encoded
/// as well gives up its default mark.
pub open spec fn kept_beside(policy: PolicyView, stream: StreamInfoView) -> OperationView {
    let flags = stream.common().dispositions;
    copied(
        stream,
        if needs_encode(policy, stream) && flags["default"@] {
            flags.insert("default"@, false)
        } else {
            flags
        },
    )
}

/// Added audio: it is the default where its source was, and the first is where no audio was.
pub open spec fn added(
    stream: AudioStreamView,
    position: int,
    defaults: bool,
    target: TargetView,
) -> OperationView {
    let flags = stream.common.dispositions;
    encoded(
        stream,
        target,
        if flags["default"@] || (!defaults && position == 0) {
            flags.insert("default"@, true)
        } else {
            flags
        },
    )
}

/// A source stream as it stands in the output where encoded audio takes the place of its source.
pub open spec fn replaced(
    policy: PolicyView,
    target: TargetView,
    stream: StreamInfoView,
) -> OperationView {
    if needs_encode(policy, stream) {
        encoded(stream->Audio_0, target, stream.common().dispositions)
    } else {
        copied(stream, stream.common().dispositions)
    }
}

/// The output where encoded audio is added.
pub open spec fn add_streams(
    streams: Seq<StreamInfoView>,
    policy: PolicyView,
    target: TargetView,
) -> Seq<OperationView> {
    let new = incompatible(streams, policy);
    Seq::new(streams.len(), |i: int| kept_beside(policy, streams[i])) + Seq::new(
        new.len(),
        |i: int| added(new[i], i, any_default(streams), target),
    )
}

/// The output where encoded audio takes the place of its source.
pub open spec fn replace_streams(
    streams: Seq<StreamInfoView>,
    policy: PolicyView,
    target: TargetView,
) -> Seq<OperationView> {
    Seq::new(streams.len(), |i: int| replaced(policy, target, streams[i]))
}

/// The output where the audio of the source is dropped.
pub open spec fn only_new_streams(
    streams: Seq<StreamInfoView>,
    policy: PolicyView,
    target: TargetView,
) -> Seq<OperationView>
    decreases streams.len(),
{
    if streams.len() == 0 {
        seq![]
    } else {
        let rest = only_new_streams(streams.drop_last(), policy, target);
        let stream = streams.last();
        if stream is Audio && !needs_encode(policy, stream) {
            rest
        } else {
            rest.push(replaced(policy, target, stream))
        }
    }
}

/// The output of a remux: everything is copied and only the selected audio is the default.
pub open spec fn remux_streams(streams: Seq<StreamInfoView>, selected: u32) -> Seq<OperationView> {
    Seq::new(
        streams.len(),
        |i: int|
            copied(
                streams[i],
                if streams[i] is Audio {
                    streams[i].common().dispositions.insert(
                        "default"@,
                        streams[i].index() == selected,
                    )
                } else {
                    streams[i].common().dispositions
                },
            ),
    )
}

/// The first stream with an index.
pub open spec fn source_of(streams: Seq<StreamInfoView>, index: u32) -> Option<StreamInfoView>
    decreases streams.len(),
{
    if streams.len() == 0 {
        None
    } else if streams[0].index() == index {
        Some(streams[0])
    } else {
        source_of(streams.drop_first(), index)
    }
}

/// What one output stream is to look like.
pub open spec fn expected_of(
    streams: Seq<StreamInfoView>,
    operation: OperationView,
) -> ExpectedStreamView {
    let source = source_of(streams, operation.source());
    let timing = match source {
        Some(stream) => stream.common().timing,
        None => StreamTimingView { start: None, duration_ticks: None },
    };
    match operation {
        OperationView::Copy { source: index, dispositions } => ExpectedStreamView {
            source: index,
            kind: match source {
                Some(stream) => kind_of(stream),
                None => KindView::Unknown("unknown"@),
            },
            codec: ExpectedCodecView::Copied(
                match source {
                    Some(stream) => stream.common().codec_name,
                    None => "unknown"@,
                },
            ),
            timing,
            metadata: match source {
                Some(stream) => stream.common().metadata,
                None => Map::empty(),
            },
            dispositions,
        },
        OperationView::EncodeAudio { source: index, target, metadata, dispositions, .. } =>
            ExpectedStreamView {
            source: index,
            kind: KindView::Audio,
            codec: ExpectedCodecView::Encoded(target.codec_label()),
            timing,
            metadata,
            dispositions,
        },
    }
}

/// What there is to know about a plan.
pub open spec fn plan_warnings(media: MediaInfoView, policy: PlanningView) -> Seq<PlanWarning> {
    let first = if policy.compatibility.conservative_baseline {
        seq![PlanWarning::ConservativeCompatibilityProfile]
    } else {
        seq![]
    };
    if media.warnings.len() > 0 {
        first.push(PlanWarning::ProbeWarningsPresent { count: media.warnings.len() as usize })
    } else {
        first
    }
}

/// The plan with the given output streams.
pub open spec fn plan_of(
    media: MediaInfoView,
    policy: PlanningView,
    action: JobAction,
    streams: Seq<OperationView>,
) -> JobPlanView {
    JobPlanView {
        input: media.path,
        output: policy.output_path,
        action,
        duration: media.format.duration,
        streams,
        copy_chapters: true,
        copy_global_metadata: true,
        warnings: plan_warnings(media, policy),
        expected: ExpectationsView {
            streams: Seq::new(streams.len(), |i: int| expected_of(media.streams, streams[i])),
            chapters: media.chapters,
            global_metadata: media.format.metadata,
        },
    }
}

/// What planning a conversion comes to.
pub open spec fn convert(media: MediaInfoView, policy: PlanningView) -> Result<
    PlanOutcomeView,
    PlanErrorView,
> {
    let rules = policy.compatibility;
    if incompatible(media.streams, rules).len() == 0 {
        if policy.output_mode is OnlyNew {
            Err(PlanErrorView::NothingToDo)
        } else {
            Ok(PlanOutcomeView::Skip(SkipReason::NothingToDo))
        }
    } else {
        let streams = match policy.output_mode {
            OutputMode::Add => add_streams(media.streams, rules, policy.target),
            OutputMode::Replace => replace_streams(media.streams, rules, policy.target),
            OutputMode::OnlyNew => only_new_streams(media.streams, rules, policy.target),
        };
        Ok(PlanOutcomeView::Execute(plan_of(media, policy, JobAction::Transcode, streams)))
    }
}

/// What planning a remux comes to.
pub open spec fn remux(
    media: MediaInfoView,
    policy: PlanningView,
    selection: SelectorView,
) -> Result<PlanOutcomeView, PlanErrorView> {
    let candidates = compatible_indices(media.streams, policy.compatibility);
    match selection {
        SelectorView::FirstCompatible => if candidates.len() == 0 {
            Err(PlanErrorView::NoCompatibleRemuxCandidate)
        } else {
            Ok(
                PlanOutcomeView::Execute(
                    plan_of(
                        media,
                        policy,
                        JobAction::RemuxOnly,
                        remux_streams(media.streams, candidates[0]),
                    ),
                ),
            )
        },
        SelectorView::StreamIndex(index) => if !candidates.contains(index) {
            Err(PlanErrorView::InvalidRemuxSelection)
        } else {
            Ok(
                PlanOutcomeView::Execute(
                    plan_of(
                        media,
                        policy,
                        JobAction::RemuxOnly,
                        remux_streams(media.streams, index),
                    ),
                ),
            )
        },
    }
}

/// What planning comes to.
pub open spec fn outcome(media: MediaInfoView, policy: PlanningView) -> Result<
    PlanOutcomeView,
    PlanErrorView,
> {
    if media_fault(media, policy) is Some {
        Err(media_fault(media, policy)->Some_0)
    } else if policy_fault(media.streams, policy.compatibility) is Some {
        Err(PlanErrorView::Policy(policy_fault(media.streams, policy.compatibility)->Some_0))
    } else {
        match policy.action {
            ActionView::Convert => convert(media, policy),
            ActionView::RemuxOnly { selection } => remux(media, policy, selection),
        }
    }
}

/// Plans the work for a media file. Nothing outside the arguments has an influence.
pub fn build(media: &MediaInfo, policy: &PlanningPolicy) -> (r: Result<PlanOutcome, PlanError>)
    ensures
        match r {
            Ok(o) => outcome(media@, policy@) == Ok::<PlanOutcomeView, PlanErrorView>(o@),
            Err(e) => outcome(media@, policy@) == Err::<PlanOutcomeView, PlanErrorView>(e@),
        },
{
    match validate_media(media, policy) {
        Ok(_) => {},
        Err(e) => {
            return Err(e);
        },
    }
    let needs = match classify_audio(media, policy.compatibility()) {
        Ok(needs) => needs,
        Err(e) => {
            return Err(e);
        },
    };
    match policy.action() {
        RequestedAction::Convert => build_convert(media, policy, &needs),
        RequestedAction::RemuxOnly { selection } => build_remux(media, policy, &needs, selection),
    }
}

fn validate_media(media: &MediaInfo, policy: &PlanningPolicy) -> (r: Result<(), PlanError>)
    ensures
        match r {
            Ok(_) => media_fault(media@, policy@) is None,
            Err(e) => media_fault(media@, policy@) == Some(e@),
        },
{
    if !media.path().is_mkv() || !media.format().is_matroska() {
        return Err(PlanError::UnsupportedContainer);
    }
    let audio = media.audio_streams();
    proof {
        assert(audio.deep_view().len() == audio@.len());
    }
    if audio.is_empty() {
        return Err(PlanError::NoAudioStreams);
    }
    if media.path().same(policy.output_path()) {
        return Err(PlanError::InputEqualsOutput);
    }
    Ok(())
}

proof fn lemma_policy_fault_prefix(streams: Seq<StreamInfoView>, policy: PolicyView, i: int)
    requires
        0 <= i <= streams.len(),
        policy_fault(streams.take(i), policy) is Some,
    ensures
        policy_fault(streams, policy) == policy_fault(streams.take(i), policy),
    decreases streams.len() - i,
{
    if i < streams.len() {
        assert(streams.take(i + 1).drop_last() == streams.take(i));
        lemma_policy_fault_prefix(streams, policy, i + 1);
    } else {
        assert(streams.take(i) == streams);
    }
}

/// What the device makes of each stream.
#[derive(Clone, Copy, PartialEq, Eq, Structural)]
enum Verdict {
    /// The stream is no audio.
    NotAudio,
    /// The device accepts it.
    Accepted,
    /// The device does not accept it.
    Refused,
}

spec fn verdict_of(policy: PolicyView, stream: StreamInfoView) -> Verdict {
    if !(stream is Audio) {
        Verdict::NotAudio
    } else if needs_encode(policy, stream) {
        Verdict::Refused
    } else {
        Verdict::Accepted
    }
}

/// What the device makes of each stream of the file.
spec fn verdicts(
    streams: Seq<StreamInfoView>,
    policy: PolicyView,
    needs: Seq<Verdict>,
) -> bool {
    &&& needs.len() == streams.len()
    &&& forall|i: int|
        0 <= i < streams.len() ==> {
            &&& #[trigger] needs[i] == verdict_of(policy, streams[i])
            &&& needs[i] is Accepted ==> is_compatible(policy, streams[i])
        }
}

fn classify_audio(media: &MediaInfo, policy: &CompatibilityPolicy) -> (r: Result<
    Vec<Verdict>,
    PlanError,
>)
    ensures
        match r {
            Ok(needs) => policy_fault(media@.streams, policy@) is None && verdicts(
                media@.streams,
                policy@,
                needs@,
            ),
            Err(e) => policy_fault(media@.streams, policy@) matches Some(p) && e@
                == PlanErrorView::Policy(p),
        },
{
    let streams = media.streams();
    let ghost all = media@.streams;
    let mut needs: Vec<Verdict> = Vec::new();
    let mut i: usize = 0;
    while i < streams.len()
        invariant
            all == streams.deep_view(),
            all == media@.streams,
            i <= streams@.len(),
            policy_fault(all.take(i as int), policy@) is None,
            verdicts(all.take(i as int), policy@, needs@),
        decreases streams@.len() - i,
    {
        let ghost done = needs@;
        proof {
            assert(all.take(i + 1).drop_last() == all.take(i as int));
            assert(all.take(i + 1).last() == all[i as int]);
            assert(all[i as int] == streams@[i as int]@);
        }
        let verdict = match streams[i].as_audio() {
            Some(stream) => match policy.classify(stream) {
                Ok(c) => if c.is_compatible() {
                    Verdict::Accepted
                } else {
                    Verdict::Refused
                },
                Err(e) => {
                    proof {
                        lemma_policy_fault_prefix(all, policy@, i + 1);
                    }
                    return Err(PlanError::Policy(e));
                },
            },
            None => Verdict::NotAudio,
        };
        needs.push(verdict);
        proof {
            let next = all.take(i + 1);
            assert(verdict == verdict_of(policy@, all[i as int]));
            assert forall|j: int| 0 <= j < next.len() implies #[trigger] needs@[j] == verdict_of(
                policy@,
                next[j],
            ) && (needs@[j] is Accepted ==> is_compatible(policy@, next[j])) by {
                if j < i {
                    assert(needs@[j] == done[j]);
                    assert(next[j] == all.take(i as int)[j]);
                }
            }
        }
        i = i + 1;
    }
    proof {
        assert(all.take(i as int) == all);
    }
    Ok(needs)
}

proof fn lemma_incompatible_empty(
    streams: Seq<StreamInfoView>,
    policy: PolicyView,
    needs: Seq<Verdict>,
)
    requires
        verdicts(streams, policy, needs),
    ensures
        incompatible(streams, policy).len() == 0 <==> forall|i: int|
            0 <= i < needs.len() ==> !(#[trigger] needs[i] is Refused),
    decreases streams.len(),
{
    if streams.len() > 0 {
        let rest = needs.drop_last();
        assert(verdicts(streams.drop_last(), policy, rest)) by {
            assert forall|i: int| 0 <= i < rest.len() implies #[trigger] rest[i] == verdict_of(
                policy,
                streams.drop_last()[i],
            ) && (rest[i] is Accepted ==> is_compatible(policy, streams.drop_last()[i])) by {
                assert(rest[i] == needs[i]);
            }
        }
        lemma_incompatible_empty(streams.drop_last(), policy, rest);
        assert(needs[needs.len() - 1] == verdict_of(policy, streams.last()));
        if incompatible(streams, policy).len() == 0 {
            assert forall|i: int| 0 <= i < needs.len() implies !(#[trigger] needs[i] is Refused) by {
                if i < rest.len() {
                    assert(rest[i] == needs[i]);
                }
            }
        } else if incompatible(streams.drop_last(), policy).len() > 0 {
            let i = choose|i: int| 0 <= i < rest.len() && #[trigger] rest[i] is Refused;
            assert(needs[i] is Refused);
        }
    }
}

fn any_refused(needs: &Vec<Verdict>) -> (r: bool)
    ensures
        r == exists|i: int| 0 <= i < needs@.len() && #[trigger] needs@[i] is Refused,
{
    let mut i: usize = 0;
    while i < needs.len()
        invariant
            i <= needs@.len(),
            forall|j: int| 0 <= j < i ==> !(#[trigger] needs@[j] is Refused),
        decreases needs@.len() - i,
    {
        if needs[i] == Verdict::Refused {
            return true;
        }
        i = i + 1;
    }
    false
}

fn has_default(streams: &Vec<StreamInfo>) -> (r: bool)
    ensures
        r == any_default(streams.deep_view()),
{
    let ghost all = streams.deep_view();
    let mut i: usize = 0;
    while i < streams.len()
        invariant
            all == streams.deep_view(),
            i <= streams@.len(),
            forall|j: int|
                0 <= j < i ==> !(#[trigger] all[j] is Audio && all[j].common().is_default()),
        decreases streams@.len() - i,
    {
        proof {
            assert(all[i as int] == streams@[i as int]@);
        }
        match streams[i].as_audio() {
            Some(stream) => if stream.common().dispositions().is_default() {
                return true;
            },
            None => {},
        }
        i = i + 1;
    }
    false
}

fn build_convert(media: &MediaInfo, policy: &PlanningPolicy, needs: &Vec<Verdict>) -> (r: Result<
    PlanOutcome,
    PlanError,
>)
    requires
        verdicts(media@.streams, policy@.compatibility, needs@),
    ensures
        match r {
            Ok(o) => convert(media@, policy@) == Ok::<PlanOutcomeView, PlanErrorView>(o@),
            Err(e) => convert(media@, policy@) == Err::<PlanOutcomeView, PlanErrorView>(e@),
        },
{
    proof {
        lemma_incompatible_empty(media@.streams, policy@.compatibility, needs@);
    }
    if !any_refused(needs) {
        return match policy.output_mode() {
            OutputMode::OnlyNew => Err(PlanError::NothingToDo),
            OutputMode::Add => Ok(PlanOutcome::Skip(SkipReason::NothingToDo)),
            OutputMode::Replace => Ok(PlanOutcome::Skip(SkipReason::NothingToDo)),
        };
    }
    let operations = match policy.output_mode() {
        OutputMode::Add => add_operations(media, policy, needs),
        OutputMode::Replace => replace_operations(media, policy, needs),
        OutputMode::OnlyNew => only_new_operations(media, policy, needs),
    };
    Ok(PlanOutcome::Execute(job_plan(media, policy, JobAction::Transcode, operations)))
}

fn add_operations(media: &MediaInfo, policy: &PlanningPolicy, needs: &Vec<Verdict>) -> (r: Vec<
    OutputStreamPlan,
>)
    requires
        verdicts(media@.streams, policy@.compatibility, needs@),
    ensures
        r.deep_view() == add_streams(media@.streams, policy@.compatibility, policy@.target),
{
    let streams = media.streams();
    let ghost all = media@.streams;
    let ghost rules = policy@.compatibility;
    let defaults = has_default(streams);
    let ghost kept = Seq::new(all.len(), |i: int| kept_beside(rules, all[i]));
    let mut operations: Vec<OutputStreamPlan> = Vec::new();
    let mut i: usize = 0;
    proof {
        assert(operations.deep_view() =~= kept.take(0));
    }
    while i < streams.len()
        invariant
            all == streams.deep_view(),
            rules == policy@.compatibility,
            verdicts(all, rules, needs@),
            kept == Seq::new(all.len(), |i: int| kept_beside(rules, all[i])),
            i <= streams@.len(),
            operations.deep_view() == kept.take(i as int),
        decreases streams@.len() - i,
    {
        let ghost before = operations;
        let stream = &streams[i];
        proof {
            assert(all[i as int] == stream@);
            assert(needs@[i as int] == verdict_of(rules, all[i as int]));
        }
        let mut dispositions = stream.common().dispositions().clone();
        if needs[i] == Verdict::Refused && dispositions.is_default() {
            dispositions.set_default(false);
        }
        let operation = copy_operation(stream, dispositions);
        operations.push(operation);
        proof {
            assert(operation@ == kept[i as int]);
            assert(operations.deep_view() =~= before.deep_view().push(operation@));
            assert(kept.take(i + 1) =~= kept.take(i as int).push(kept[i as int]));
        }
        i = i + 1;
    }
    let ghost new = incompatible(all, rules);
    let ghost more = Seq::new(new.len(), |k: int| added(new[k], k, defaults, policy@.target));
    proof {
        assert(kept.take(i as int) =~= kept);
        assert(incompatible(all.take(0), rules) =~= seq![]);
        assert(kept + more.take(0) =~= kept);
        lemma_incompatible_prefix(all, rules, 0);
    }
    let mut count: usize = 0;
    let mut j: usize = 0;
    while j < streams.len()
        invariant
            all == streams.deep_view(),
            rules == policy@.compatibility,
            verdicts(all, rules, needs@),
            new == incompatible(all, rules),
            defaults == any_default(all),
            more == Seq::new(new.len(), |k: int| added(new[k], k, defaults, policy@.target)),
            j <= streams@.len(),
            count <= j,
            count == incompatible(all.take(j as int), rules).len(),
            operations.deep_view() == kept + more.take(count as int),
        decreases streams@.len() - j,
    {
        proof {
            assert(all[j as int] == streams@[j as int]@);
            assert(needs@[j as int] == verdict_of(rules, all[j as int]));
            assert(all.take(j + 1).drop_last() == all.take(j as int));
            assert(all.take(j + 1).last() == all[j as int]);
        }
        if needs[j] == Verdict::Refused {
            match streams[j].as_audio() {
                Some(stream) => {
                    let ghost before = operations;
                    proof {
                        lemma_incompatible_prefix(all, rules, j + 1);
                        let longer = incompatible(all.take(j + 1), rules);
                        assert(longer[count as int] == stream@);
                        assert(new.take(longer.len() as int)[count as int] == new[count as int]);
                    }
                    let mut dispositions = stream.common().dispositions().clone();
                    if dispositions.is_default() || (!defaults && count == 0) {
                        dispositions.set_default(true);
                    }
                    let operation = encode_operation(stream, policy.target(), dispositions);
                    operations.push(operation);
                    proof {
                        assert(operation@ == more[count as int]);
                        assert(operations.deep_view() =~= before.deep_view().push(operation@));
                        assert(more.take(count + 1) =~= more.take(count as int).push(
                            more[count as int],
                        ));
                        assert(kept + more.take(count + 1) =~= (kept + more.take(
                            count as int,
                        )).push(more[count as int]));
                    }
                    count = count + 1;
                },
                None => {},
            }
        }
        j = j + 1;
    }
    proof {
        assert(all.take(j as int) =~= all);
        assert(more.take(count as int) =~= more);
        assert(kept + more =~= add_streams(all, rules, policy@.target));
    }
    operations
}

/// The refused audio among the first streams begins the list of all refused audio.
proof fn lemma_incompatible_prefix(streams: Seq<StreamInfoView>, policy: PolicyView, i: int)
    requires
        0 <= i <= streams.len(),
    ensures
        incompatible(streams.take(i), policy).len() <= incompatible(streams, policy).len(),
        incompatible(streams, policy).take(incompatible(streams.take(i), policy).len() as int)
            == incompatible(streams.take(i), policy),
    decreases streams.len() - i,
{
    let short = incompatible(streams.take(i), policy);
    if i < streams.len() {
        lemma_incompatible_prefix(streams, policy, i + 1);
        assert(streams.take(i + 1).drop_last() == streams.take(i));
        let longer = incompatible(streams.take(i + 1), policy);
        let all = incompatible(streams, policy);
        assert(longer.take(short.len() as int) =~= short);
        assert(all.take(longer.len() as int).take(short.len() as int) =~= all.take(
            short.len() as int,
        ));
    } else {
        assert(streams.take(i) =~= streams);
        assert(short.take(short.len() as int) =~= short);
    }
}

fn replace_operations(media: &MediaInfo, policy: &PlanningPolicy, needs: &Vec<Verdict>) -> (r: Vec<
    OutputStreamPlan,
>)
    requires
        verdicts(media@.streams, policy@.compatibility, needs@),
    ensures
        r.deep_view() == replace_streams(media@.streams, policy@.compatibility, policy@.target),
{
    let streams = media.streams();
    let ghost all = media@.streams;
    let ghost rules = policy@.compatibility;
    let ghost goal = replace_streams(all, rules, policy@.target);
    let mut operations: Vec<OutputStreamPlan> = Vec::new();
    let mut i: usize = 0;
    proof {
        assert(operations.deep_view() =~= goal.take(0));
    }
    while i < streams.len()
        invariant
            all == streams.deep_view(),
            rules == policy@.compatibility,
            verdicts(all, rules, needs@),
            goal == replace_streams(all, rules, policy@.target),
            i <= streams@.len(),
            operations.deep_view() == goal.take(i as int),
        decreases streams@.len() - i,
    {
        let ghost before = operations;
        let stream = &streams[i];
        proof {
            assert(all[i as int] == stream@);
            assert(needs@[i as int] == verdict_of(rules, all[i as int]));
        }
        let operation = replaced_operation(stream, policy.target(), needs[i], Ghost(rules));
        operations.push(operation);
        proof {
            assert(operation@ == goal[i as int]);
            assert(operations.deep_view() =~= before.deep_view().push(operation@));
            assert(goal.take(i + 1) =~= goal.take(i as int).push(goal[i as int]));
        }
        i = i + 1;
    }
    proof {
        assert(goal.take(i as int) =~= goal);
    }
    operations
}

fn replaced_operation(
    stream: &StreamInfo,
    target: &AudioTarget,
    verdict: Verdict,
    rules: Ghost<PolicyView>,
) -> (r: OutputStreamPlan)
    requires
        verdict == verdict_of(rules@, stream@),
    ensures
        r@ == replaced(rules@, target@, stream@),
{
    let dispositions = stream.common().dispositions().clone();
    match stream.as_audio() {
        Some(audio) => if verdict == Verdict::Refused {
            encode_operation(audio, target, dispositions)
        } else {
            copy_operation(stream, dispositions)
        },
        None => copy_operation(stream, dispositions),
    }
}

fn only_new_operations(media: &MediaInfo, policy: &PlanningPolicy, needs: &Vec<Verdict>) -> (r: Vec<
    OutputStreamPlan,
>)
    requires
        verdicts(media@.streams, policy@.compatibility, needs@),
    ensures
        r.deep_view() == only_new_streams(media@.streams, policy@.compatibility, policy@.target),
{
    let streams = media.streams();
    let ghost all = media@.streams;
    let ghost rules = policy@.compatibility;
    let mut operations: Vec<OutputStreamPlan> = Vec::new();
    let mut i: usize = 0;
    proof {
        assert(operations.deep_view() =~= seq![]);
    }
    while i < streams.len()
        invariant
            all == streams.deep_view(),
            rules == policy@.compatibility,
            verdicts(all, rules, needs@),
            i <= streams@.len(),
            operations.deep_view() == only_new_streams(
                all.take(i as int),
                rules,
                policy@.target,
            ),
        decreases streams@.len() - i,
    {
        let ghost before = operations;
        let stream = &streams[i];
        proof {
            assert(all[i as int] == stream@);
            assert(needs@[i as int] == verdict_of(rules, all[i as int]));
            assert(all.take(i + 1).drop_last() == all.take(i as int));
            assert(all.take(i + 1).last() == all[i as int]);
        }
        if needs[i] != Verdict::Accepted {
            let operation = replaced_operation(stream, policy.target(), needs[i], Ghost(rules));
            operations.push(operation);
            proof {
                assert(operations.deep_view() =~= before.deep_view().push(operation@));
            }
        }
        i = i + 1;
    }
    proof {
        assert(all.take(i as int) =~= all);
    }
    operations
}

fn candidate_indices(media: &MediaInfo, needs: &Vec<Verdict>, rules: Ghost<PolicyView>) -> (r: Vec<
    StreamIndex,
>)
    requires
        verdicts(media@.streams, rules@, needs@),
    ensures
        r.deep_view() == compatible_indices(media@.streams, rules@),
{
    let streams = media.streams();
    let ghost all = media@.streams;
    let mut indices: Vec<StreamIndex> = Vec::new();
    let mut i: usize = 0;
    proof {
        assert(indices.deep_view() =~= seq![]);
    }
    while i < streams.len()
        invariant
            all == streams.deep_view(),
            verdicts(all, rules@, needs@),
            i <= streams@.len(),
            indices.deep_view() == compatible_indices(all.take(i as int), rules@),
        decreases streams@.len() - i,
    {
        let ghost before = indices;
        proof {
            assert(all[i as int] == streams@[i as int]@);
            assert(needs@[i as int] == verdict_of(rules@, all[i as int]));
            assert(all.take(i + 1).drop_last() == all.take(i as int));
            assert(all.take(i + 1).last() == all[i as int]);
        }
        if needs[i] == Verdict::Accepted {
            let index = streams[i].index();
            indices.push(index);
            proof {
                assert(indices.deep_view() =~= before.deep_view().push(index@));
            }
        }
        i = i + 1;
    }
    proof {
        assert(all.take(i as int) =~= all);
    }
    indices
}

fn build_remux(
    media: &MediaInfo,
    policy: &PlanningPolicy,
    needs: &Vec<Verdict>,
    selection: AudioSelector,
) -> (r: Result<PlanOutcome, PlanError>)
    requires
        verdicts(media@.streams, policy@.compatibility, needs@),
    ensures
        match r {
            Ok(o) => remux(media@, policy@, selection@) == Ok::<PlanOutcomeView, PlanErrorView>(
                o@,
            ),
            Err(e) => remux(media@, policy@, selection@) == Err::<PlanOutcomeView, PlanErrorView>(
                e@,
            ),
        },
{
    let candidates = candidate_indices(media, needs, Ghost(policy@.compatibility));
    let ghost all = candidates.deep_view();
    let selected = match selection {
        AudioSelector::FirstCompatible => {
            if candidates.len() == 0 {
                return Err(PlanError::NoCompatibleRemuxCandidate);
            }
            proof {
                assert(all[0] == candidates@[0]@);
            }
            candidates[0]
        },
        AudioSelector::StreamIndex(index) => {
            let mut found = false;
            let mut i: usize = 0;
            while i < candidates.len()
                invariant
                    all == candidates.deep_view(),
                    i <= candidates@.len(),
                    found == all.take(i as int).contains(index@),
                decreases candidates@.len() - i,
            {
                proof {
                    assert(all[i as int] == candidates@[i as int]@);
                    let done = all.take(i as int);
                    let next = all.take(i + 1);
                    assert(next =~= done.push(all[i as int]));
                    if done.contains(index@) {
                        let j = choose|j: int| 0 <= j < done.len() && done[j] == index@;
                        assert(next[j] == index@);
                    }
                    if next.contains(index@) && all[i as int] != index@ {
                        let j = choose|j: int| 0 <= j < next.len() && next[j] == index@;
                        assert(done[j] == index@);
                    }
                    assert(next[i as int] == all[i as int]);
                }
                if candidates[i].get() == index.get() {
                    found = true;
                }
                i = i + 1;
            }
            proof {
                assert(all.take(i as int) =~= all);
            }
            if !found {
                return Err(PlanError::InvalidRemuxSelection);
            }
            index
        },
    };
    let streams = media.streams();
    let ghost sources = media@.streams;
    let ghost goal = remux_streams(sources, selected@);
    let mut operations: Vec<OutputStreamPlan> = Vec::new();
    let mut i: usize = 0;
    proof {
        assert(operations.deep_view() =~= goal.take(0));
    }
    while i < streams.len()
        invariant
            sources == streams.deep_view(),
            goal == remux_streams(sources, selected@),
            i <= streams@.len(),
            operations.deep_view() == goal.take(i as int),
        decreases streams@.len() - i,
    {
        let ghost before = operations;
        let stream = &streams[i];
        proof {
            assert(sources[i as int] == stream@);
        }
        let mut dispositions = stream.common().dispositions().clone();
        match stream.as_audio() {
            Some(_) => {
                dispositions.set_default(stream.index().get() == selected.get());
            },
            None => {},
        }
        let operation = copy_operation(stream, dispositions);
        operations.push(operation);
        proof {
            assert(operation@ == goal[i as int]);
            assert(operations.deep_view() =~= before.deep_view().push(operation@));
            assert(goal.take(i + 1) =~= goal.take(i as int).push(goal[i as int]));
        }
        i = i + 1;
    }
    proof {
        assert(goal.take(i as int) =~= goal);
    }
    Ok(PlanOutcome::Execute(job_plan(media, policy, JobAction::RemuxOnly, operations)))
}

fn copy_operation(stream: &StreamInfo, dispositions: Dispositions) -> (r: OutputStreamPlan)
    ensures
        r@ == copied(stream@, dispositions@),
{
    OutputStreamPlan::Copy { source: stream.index(), dispositions }
}

proof fn lemma_no_nul(a: Seq<char>, b: Seq<char>)
    requires
        !a.contains('\0'),
        !b.contains('\0'),
    ensures
        !(a + b).contains('\0'),
{
    if (a + b).contains('\0') {
        let i = choose|i: int| 0 <= i < (a + b).len() && (a + b)[i] == '\0';
        if i < a.len() {
            assert(a[i] == '\0');
        } else {
            assert(b[i - a.len()] == '\0');
        }
    }
}

/// The title of encoded audio is a sound metadata value.
proof fn lemma_title_sound(target: TargetView, stream: AudioStreamView)
    requires
        model::metadata_sound(stream.common.metadata),
    ensures
        model::entry_fault("title"@, derived_title(target, stream)) is None,
{
    reveal_strlit("title");
    assert("title"@ =~= seq!['t', 'i', 't', 'l', 'e']);
    assert(!"title"@.contains('\0'));
    assert(text::trim_start("title"@) == "title"@);
    assert(text::trim_end("title"@) == "title"@);
    assert(text::trim("title"@) == "title"@);
    reveal_strlit("AC-3");
    reveal_strlit("E-AC-3");
    reveal_strlit("AAC");
    assert("AC-3"@ =~= seq!['A', 'C', '-', '3']);
    assert("E-AC-3"@ =~= seq!['E', '-', 'A', 'C', '-', '3']);
    assert("AAC"@ =~= seq!['A', 'A', 'C']);
    assert(!target.codec_label().contains('\0'));
    reveal_strlit("mono");
    reveal_strlit("stereo");
    reveal_strlit("3.0");
    reveal_strlit("4.0");
    reveal_strlit("5.0");
    reveal_strlit("5.1");
    assert("mono"@ =~= seq!['m', 'o', 'n', 'o']);
    assert("stereo"@ =~= seq!['s', 't', 'e', 'r', 'e', 'o']);
    assert("3.0"@ =~= seq!['3', '.', '0']);
    assert("4.0"@ =~= seq!['4', '.', '0']);
    assert("5.0"@ =~= seq!['5', '.', '0']);
    assert("5.1"@ =~= seq!['5', '.', '1']);
    let layout = target.layout_label(stream.channels.count);
    assert(!layout.contains('\0'));
    reveal_strlit(" ");
    reveal_strlit(" [");
    reveal_strlit("]");
    assert(" "@ =~= seq![' ']);
    assert(" ["@ =~= seq![' ', '[']);
    assert("]"@ =~= seq![']']);
    assert(!" "@.contains('\0'));
    assert(!" ["@.contains('\0'));
    assert(!"]"@.contains('\0'));
    lemma_no_nul(target.codec_label(), " "@);
    lemma_no_nul(target.codec_label() + " "@, layout);
    let suffix = target.codec_label() + " "@ + layout;
    let metadata = stream.common.metadata;
    if metadata.dom().contains("title"@) {
        let title = metadata["title"@];
        assert(model::entry_fault("title"@, title) is None);
        assert(!title.contains('\0'));
        lemma_no_nul(title, " ["@);
        lemma_no_nul(title + " ["@, suffix);
        lemma_no_nul(title + " ["@ + suffix, "]"@);
    }
}

fn encode_operation(stream: &AudioStream, target: &AudioTarget, dispositions: Dispositions) -> (r:
    OutputStreamPlan)
    ensures
        r@ == encoded(stream@, target@, dispositions@),
{
    let mut metadata = stream.common().metadata().clone();
    proof {
        use_type_invariant(&metadata);
        lemma_title_sound(target@, stream@);
    }
    let count = stream.channels().count();
    let suffix = text::concat3(target.codec_label(), " ", target.layout_label(count.get()));
    let title = match metadata.title() {
        Some(title) => {
            let mut out = text::concat3(title, " [", suffix.as_str());
            text::push_text(&mut out, "]");
            out
        },
        None => suffix,
    };
    let _previous = metadata.insert("title", title.as_str());
    OutputStreamPlan::EncodeAudio {
        source: stream.common().index(),
        target: *target,
        output_channels: planned_channels(target, count),
        metadata: MetadataPlan { metadata },
        dispositions,
    }
}

fn planned_channels(target: &AudioTarget, count: ChannelCount) -> (r: ChannelCount)
    ensures
        r@ == target@.output_channels(count@),
{
    let wanted: u16 = match target.layout() {
        crate::target::TargetLayout::Stereo => 2,
        crate::target::TargetLayout::Surround51 => 6,
        crate::target::TargetLayout::KeepUpTo51 => if count.get() > 6 {
            6
        } else {
            count.get()
        },
    };
    match ChannelCount::new(wanted) {
        Ok(channels) => channels,
        Err(_) => count,
    }
}

fn find_source(streams: &Vec<StreamInfo>, index: StreamIndex) -> (r: Option<&StreamInfo>)
    ensures
        r.deep_view() == source_of(streams.deep_view(), index@),
{
    let ghost all = streams.deep_view();
    let mut i: usize = 0;
    proof {
        assert(all.skip(0) =~= all);
    }
    while i < streams.len()
        invariant
            all == streams.deep_view(),
            i <= streams@.len(),
            source_of(all, index@) == source_of(all.skip(i as int), index@),
        decreases streams@.len() - i,
    {
        proof {
            assert(all[i as int] == streams@[i as int]@);
            assert(all.skip(i as int)[0] == all[i as int]);
            assert(all.skip(i as int).drop_first() =~= all.skip(i + 1));
        }
        if streams[i].index().get() == index.get() {
            return Some(&streams[i]);
        }
        i = i + 1;
    }
    None
}

fn expected_stream(streams: &Vec<StreamInfo>, operation: &OutputStreamPlan) -> (r: ExpectedStream)
    ensures
        r@ == expected_of(streams.deep_view(), operation@),
{
    let source = find_source(streams, operation.source());
    let timing = match source {
        Some(stream) => *stream.common().timing(),
        None => StreamTiming::default(),
    };
    match operation {
        OutputStreamPlan::Copy { source: index, dispositions } => ExpectedStream {
            source: *index,
            kind: match source {
                Some(stream) => stream_kind(stream),
                None => ExpectedStreamKind::Unknown("unknown".to_owned()),
            },
            codec: ExpectedCodec::Copied(
                match source {
                    Some(stream) => stream.common().codec_name().to_owned(),
                    None => "unknown".to_owned(),
                },
            ),
            timing,
            metadata: match source {
                Some(stream) => stream.common().metadata().clone(),
                None => Metadata::default(),
            },
            dispositions: dispositions.clone(),
        },
        OutputStreamPlan::EncodeAudio { source: index, target, metadata, dispositions, .. } =>
            ExpectedStream {
            source: *index,
            kind: ExpectedStreamKind::Audio,
            codec: ExpectedCodec::Encoded(target.codec_label()),
            timing,
            metadata: metadata.metadata().clone(),
            dispositions: dispositions.clone(),
        },
    }
}

fn job_plan(
    media: &MediaInfo,
    policy: &PlanningPolicy,
    action: JobAction,
    streams: Vec<OutputStreamPlan>,
) -> (r: JobPlan)
    ensures
        r@ == plan_of(media@, policy@, action, streams.deep_view()),
{
    let sources = media.streams();
    let ghost operations = streams.deep_view();
    let ghost goal = Seq::new(
        operations.len(),
        |i: int| expected_of(media@.streams, operations[i]),
    );
    let mut expected: Vec<ExpectedStream> = Vec::new();
    let mut i: usize = 0;
    proof {
        assert(expected.deep_view() =~= goal.take(0));
    }
    while i < streams.len()
        invariant
            sources.deep_view() == media@.streams,
            operations == streams.deep_view(),
            goal == Seq::new(
                operations.len(),
                |i: int| expected_of(media@.streams, operations[i]),
            ),
            i <= streams@.len(),
            expected.deep_view() == goal.take(i as int),
        decreases streams@.len() - i,
    {
        let ghost before = expected;
        let next = expected_stream(sources, &streams[i]);
        expected.push(next);
        proof {
            assert(operations[i as int] == streams@[i as int]@);
            assert(next@ == goal[i as int]);
            assert(expected.deep_view() =~= before.deep_view().push(next@));
            assert(goal.take(i + 1) =~= goal.take(i as int).push(goal[i as int]));
        }
        i = i + 1;
    }
    proof {
        assert(goal.take(i as int) =~= goal);
    }
    let mut warnings: Vec<PlanWarning> = Vec::new();
    if policy.compatibility().is_conservative_baseline() {
        warnings.push(PlanWarning::ConservativeCompatibilityProfile);
    }
    let count = media.warnings().len();
    proof {
        assert(media@.warnings.len() == count);
    }
    if count > 0 {
        warnings.push(PlanWarning::ProbeWarningsPresent { count });
    }
    proof {
        assert(warnings@ =~= plan_warnings(media@, policy@));
    }
    JobPlan {
        input: media.path().clone(),
        output: policy.output_path().clone(),
        action,
        duration: media.format().duration(),
        streams,
        copy_chapters: true,
        copy_global_metadata: true,
        warnings,
        expected: OutputExpectations {
            streams: expected,
            chapters: media::copy_chapters(media.chapters()),
            global_metadata: media.format().metadata().clone(),
        },
    }
}

} // verus!
