//! The document that the inspection tool writes, and the media that it describes.
use vstd::prelude::*;

use crate::backend::{IoError, IoErrorView};
use crate::ffmpeg::command::{Argument, ArgumentView};
use crate::media;
use crate::media::{
    Chapter, ChapterView, FormatInfo, FormatInfoView, MediaInfo, MediaInfoView, ProbeWarning,
    ProbeWarningView,
};
use crate::model;
use crate::model::{
    Bitrate, ChannelCount, DurationMicros, MediaTimestamp, Metadata, MetadataView, ModelError,
    ModelErrorView, SampleRate, StreamIndex, StreamTiming, StreamTimingView, TimeBase,
    TimeBaseView, TimestampView,
};
use crate::number;
use crate::path;
use crate::path::FilePath;
use crate::stream;
use crate::stream::{
    AttachmentStream, AttachmentStreamView, AudioCodec, AudioStream, AudioStreamView, Channels,
    ChannelsView, DataStream, Dispositions, StreamCommon, StreamCommonView, StreamInfo,
    StreamInfoView, SubtitleStream, UnknownStream, UnknownStreamView, VideoStream,
};
use crate::table;
use crate::table::TextMap;
use crate::text;

verus! {

/// Why a file could not be probed.
#[derive(Debug, PartialEq, Eq)]
pub enum ProbeError {
    /// The input path could not be made absolute.
    ResolveInput {
        /// What went wrong.
        source: IoError,
    },
    /// The tool could not be started.
    Spawn {
        /// The tool.
        executable: FilePath,
        /// What went wrong.
        source: IoError,
    },
    /// The tool has no such pipe.
    MissingPipe {
        /// The pipe.
        pipe: &'static str,
    },
    /// A pipe of the tool could not be read.
    ReadOutput {
        /// The pipe.
        pipe: &'static str,
        /// What went wrong.
        source: IoError,
    },
    /// The tool wrote more than the limit.
    OutputTooLarge {
        /// The limit.
        limit_bytes: usize,
    },
    /// The tool could not be waited for.
    Wait {
        /// What went wrong.
        source: IoError,
    },
    /// The reader of the diagnostics did not finish.
    StderrTask {
        /// What went wrong.
        message: String,
    },
    /// The reader of the document did not finish.
    StdoutTask {
        /// What went wrong.
        message: String,
    },
    /// The tool reported a failure.
    Failed {
        /// Its exit code.
        code: Option<i32>,
        /// The end of its diagnostics.
        stderr: String,
    },
    /// The tool could not be stopped.
    Terminate {
        /// What went wrong.
        source: IoError,
    },
    /// The probe was cancelled and the tool was reaped.
    Cancelled,
    /// The document is not valid.
    InvalidJson {
        /// The line, counted from one.
        line: usize,
        /// The column, counted from one.
        column: usize,
        /// What went wrong.
        source: String,
    },
    /// The document lacks a field.
    MissingField {
        /// The field.
        field: &'static str,
        /// The stream, where it belongs to one.
        context: String,
    },
    /// A field has a value that it cannot have.
    InvalidField {
        /// The field.
        field: &'static str,
        /// The stream, where it belongs to one.
        context: String,
        /// Why not.
        reason: String,
    },
    /// The document describes no valid media.
    Model(ModelError),
}

/// Why a file could not be probed.
pub enum ProbeErrorView {
    /// The input path could not be made absolute.
    ResolveInput {
        /// What went wrong.
        source: IoErrorView,
    },
    /// The tool could not be started.
    Spawn {
        /// The tool.
        executable: Seq<u8>,
        /// What went wrong.
        source: IoErrorView,
    },
    /// The tool has no such pipe.
    MissingPipe {
        /// The pipe.
        pipe: Seq<char>,
    },
    /// A pipe of the tool could not be read.
    ReadOutput {
        /// The pipe.
        pipe: Seq<char>,
        /// What went wrong.
        source: IoErrorView,
    },
    /// The tool wrote more than the limit.
    OutputTooLarge {
        /// The limit.
        limit_bytes: usize,
    },
    /// The tool could not be waited for.
    Wait {
        /// What went wrong.
        source: IoErrorView,
    },
    /// The reader of the diagnostics did not finish.
    StderrTask {
        /// What went wrong.
        message: Seq<char>,
    },
    /// The reader of the document did not finish.
    StdoutTask {
        /// What went wrong.
        message: Seq<char>,
    },
    /// The tool reported a failure.
    Failed {
        /// Its exit code.
        code: Option<i32>,
        /// The end of its diagnostics.
        stderr: Seq<char>,
    },
    /// The tool could not be stopped.
    Terminate {
        /// What went wrong.
        source: IoErrorView,
    },
    /// The probe was cancelled and the tool was reaped.
    Cancelled,
    /// The document is not valid.
    InvalidJson {
        /// The line, counted from one.
        line: usize,
        /// The column, counted from one.
        column: usize,
        /// What went wrong.
        source: Seq<char>,
    },
    /// The document lacks a field.
    MissingField {
        /// The field.
        field: Seq<char>,
        /// The stream, where it belongs to one.
        context: Seq<char>,
    },
    /// A field has a value that it cannot have.
    InvalidField {
        /// The field.
        field: Seq<char>,
        /// The stream, where it belongs to one.
        context: Seq<char>,
        /// Why not.
        reason: Seq<char>,
    },
    /// The document describes no valid media.
    Model(ModelErrorView),
}

impl View for ProbeError {
    type V = ProbeErrorView;

    open spec fn view(&self) -> ProbeErrorView {
        match self {
            ProbeError::ResolveInput { source } => ProbeErrorView::ResolveInput {
                source: source@,
            },
            ProbeError::Spawn { executable, source } => ProbeErrorView::Spawn {
                executable: executable@,
                source: source@,
            },
            ProbeError::MissingPipe { pipe } => ProbeErrorView::MissingPipe {
                pipe: pipe@,
            },
            ProbeError::ReadOutput { pipe, source } => ProbeErrorView::ReadOutput {
                pipe: pipe@,
                source: source@,
            },
            ProbeError::OutputTooLarge { limit_bytes } => ProbeErrorView::OutputTooLarge {
                limit_bytes: *limit_bytes,
            },
            ProbeError::Wait { source } => ProbeErrorView::Wait {
                source: source@,
            },
            ProbeError::StderrTask { message } => ProbeErrorView::StderrTask {
                message: message@,
            },
            ProbeError::StdoutTask { message } => ProbeErrorView::StdoutTask {
                message: message@,
            },
            ProbeError::Failed { code, stderr } => ProbeErrorView::Failed {
                code: *code,
                stderr: stderr@,
            },
            ProbeError::Terminate { source } => ProbeErrorView::Terminate {
                source: source@,
            },
            ProbeError::Cancelled => ProbeErrorView::Cancelled,
            ProbeError::InvalidJson { line, column, source } => ProbeErrorView::InvalidJson {
                line: *line,
                column: *column,
                source: source@,
            },
            ProbeError::MissingField { field, context } => ProbeErrorView::MissingField {
                field: field@,
                context: context@,
            },
            ProbeError::InvalidField { field, context, reason } => ProbeErrorView::InvalidField {
                field: field@,
                context: context@,
                reason: reason@,
            },
            ProbeError::Model(value) => ProbeErrorView::Model(value@),
        }
    }
}

impl DeepView for ProbeError {
    type V = ProbeErrorView;

    open spec fn deep_view(&self) -> ProbeErrorView {
        self@
    }
}

impl ProbeErrorView {
    /// The user-facing description.
    pub open spec fn message(self) -> Seq<char> {
        match self {
            ProbeErrorView::ResolveInput { source } => "failed to resolve input path: "@ + source.message,
            ProbeErrorView::Spawn { executable, source } => "failed to launch FFprobe at "@ + text::lossy(executable) + ": "@ + source.message,
            ProbeErrorView::MissingPipe { pipe } => "FFprobe "@ + pipe + " pipe was unavailable"@,
            ProbeErrorView::ReadOutput { pipe, source } => "failed to read FFprobe "@ + pipe + ": "@ + source.message,
            ProbeErrorView::OutputTooLarge { limit_bytes } => "FFprobe JSON exceeds the "@ + number::decimal(limit_bytes as int) + "-byte safety limit"@,
            ProbeErrorView::Wait { source } => "failed to wait for FFprobe: "@ + source.message,
            ProbeErrorView::StderrTask { message } => "FFprobe stderr reader failed: "@ + message,
            ProbeErrorView::StdoutTask { message } => "FFprobe stdout reader failed: "@ + message,
            ProbeErrorView::Failed { code, stderr } => "FFprobe exited with code "@ + code_text(code) + ": "@ + stderr,
            ProbeErrorView::Terminate { source } => "failed to terminate FFprobe process group: "@ + source.message,
            ProbeErrorView::Cancelled => "FFprobe operation cancelled"@,
            ProbeErrorView::InvalidJson { line, column, source } => "invalid FFprobe JSON at line "@ + number::decimal(line as int) + ", column "@ + number::decimal(column as int) + ": "@ + source,
            ProbeErrorView::MissingField { field, context } => "missing required FFprobe field `"@ + field + "`"@ + context,
            ProbeErrorView::InvalidField { field, context, reason } => "invalid FFprobe field `"@ + field + "`"@ + context + ": "@ + reason,
            ProbeErrorView::Model(value) => value.message(),
        }
    }
}

impl ProbeError {
    /// The user-facing description.
    pub fn message(&self) -> (r: String)
        ensures
            r@ == self@.message(),
    {
        match self {
            ProbeError::ResolveInput { source } => text::concat2("failed to resolve input path: ", source.message()),
            ProbeError::Spawn { executable, source } => {
                let mut out = text::concat3("failed to launch FFprobe at ", executable.display().as_str(), ": ");
                text::push_text(&mut out, source.message());
                out
            },
            ProbeError::MissingPipe { pipe } => text::concat3("FFprobe ", pipe, " pipe was unavailable"),
            ProbeError::ReadOutput { pipe, source } => {
                let mut out = text::concat3("failed to read FFprobe ", pipe, ": ");
                text::push_text(&mut out, source.message());
                out
            },
            ProbeError::OutputTooLarge { limit_bytes } => text::concat3("FFprobe JSON exceeds the ", number::show_usize(*limit_bytes).as_str(), "-byte safety limit"),
            ProbeError::Wait { source } => text::concat2("failed to wait for FFprobe: ", source.message()),
            ProbeError::StderrTask { message } => text::concat2("FFprobe stderr reader failed: ", message.as_str()),
            ProbeError::StdoutTask { message } => text::concat2("FFprobe stdout reader failed: ", message.as_str()),
            ProbeError::Failed { code, stderr } => {
                let mut out = text::concat3("FFprobe exited with code ", show_code(*code).as_str(), ": ");
                text::push_text(&mut out, stderr.as_str());
                out
            },
            ProbeError::Terminate { source } => text::concat2("failed to terminate FFprobe process group: ", source.message()),
            ProbeError::Cancelled => "FFprobe operation cancelled".to_owned(),
            ProbeError::InvalidJson { line, column, source } => {
                let mut out = text::concat3("invalid FFprobe JSON at line ", number::show_usize(*line).as_str(), ", column ");
                text::push_text(&mut out, number::show_usize(*column).as_str());
                text::push_text(&mut out, ": ");
                text::push_text(&mut out, source.as_str());
                out
            },
            ProbeError::MissingField { field, context } => {
                let mut out = text::concat3("missing required FFprobe field `", field, "`");
                text::push_text(&mut out, context.as_str());
                out
            },
            ProbeError::InvalidField { field, context, reason } => {
                let mut out = text::concat3("invalid FFprobe field `", field, "`");
                text::push_text(&mut out, context.as_str());
                text::push_text(&mut out, ": ");
                text::push_text(&mut out, reason.as_str());
                out
            },
            ProbeError::Model(value) => value.message(),
        }
    }
}

/// An exit code for people.
pub open spec fn code_text(code: Option<i32>) -> Seq<char> {
    match code {
        Some(n) => "Some("@ + number::signed_decimal(n as int) + ")"@,
        None => "None"@,
    }
}

pub(crate) fn show_code(code: Option<i32>) -> (r: String)
    ensures
        r@ == code_text(code),
{
    match code {
        Some(n) => text::concat3("Some(", number::show_i64(n as i64).as_str(), ")"),
        None => "None".to_owned(),
    }
}

/// Where the two tools are.
#[derive(Debug, PartialEq, Eq)]
pub struct FfmpegToolchainPaths {
    ffmpeg: FilePath,
    ffprobe: FilePath,
}

/// Where the two tools are.
pub struct ToolchainPathsView {
    /// The conversion tool.
    pub ffmpeg: Seq<u8>,
    /// The inspection tool.
    pub ffprobe: Seq<u8>,
}

impl View for FfmpegToolchainPaths {
    type V = ToolchainPathsView;

    closed spec fn view(&self) -> ToolchainPathsView {
        ToolchainPathsView {
            ffmpeg: self.ffmpeg@,
            ffprobe: self.ffprobe@,
        }
    }
}

impl DeepView for FfmpegToolchainPaths {
    type V = ToolchainPathsView;

    open spec fn deep_view(&self) -> ToolchainPathsView {
        self@
    }
}

impl Clone for FfmpegToolchainPaths {
    fn clone(&self) -> (r: Self)
        ensures
            r@ == self@,
    {
        let r = FfmpegToolchainPaths {
            ffmpeg: self.ffmpeg.clone(),
            ffprobe: self.ffprobe.clone(),
        };
        r
    }
}

impl FfmpegToolchainPaths {
    /// Where the two tools are.
    pub fn new(ffmpeg: FilePath, ffprobe: FilePath) -> (r: Self)
        ensures
            r@ == (ToolchainPathsView {
                ffmpeg: ffmpeg@,
                ffprobe: ffprobe@,
            }),
    {
        FfmpegToolchainPaths { ffmpeg, ffprobe }
    }

    /// The conversion tool.
    pub fn ffmpeg(&self) -> (r: &FilePath)
        ensures
            r@ == self@.ffmpeg,
    {
        &self.ffmpeg
    }

    /// The inspection tool.
    pub fn ffprobe(&self) -> (r: &FilePath)
        ensures
            r@ == self@.ffprobe,
    {
        &self.ffprobe
    }
}

/// The two tools as one backend.
#[derive(Debug, PartialEq, Eq)]
pub struct FfmpegCliBackend {
    ffmpeg_path: FilePath,
    ffprobe_path: FilePath,
}

/// The two tools as one backend.
pub struct CliBackendView {
    /// The conversion tool.
    pub ffmpeg_path: Seq<u8>,
    /// The inspection tool.
    pub ffprobe_path: Seq<u8>,
}

impl View for FfmpegCliBackend {
    type V = CliBackendView;

    closed spec fn view(&self) -> CliBackendView {
        CliBackendView {
            ffmpeg_path: self.ffmpeg_path@,
            ffprobe_path: self.ffprobe_path@,
        }
    }
}

impl DeepView for FfmpegCliBackend {
    type V = CliBackendView;

    open spec fn deep_view(&self) -> CliBackendView {
        self@
    }
}

impl Clone for FfmpegCliBackend {
    fn clone(&self) -> (r: Self)
        ensures
            r@ == self@,
    {
        let r = FfmpegCliBackend {
            ffmpeg_path: self.ffmpeg_path.clone(),
            ffprobe_path: self.ffprobe_path.clone(),
        };
        r
    }
}

impl FfmpegCliBackend {
    /// The conversion tool.
    pub fn ffmpeg_path(&self) -> (r: &FilePath)
        ensures
            r@ == self@.ffmpeg_path,
    {
        &self.ffmpeg_path
    }

    /// The inspection tool.
    pub fn ffprobe_path(&self) -> (r: &FilePath)
        ensures
            r@ == self@.ffprobe_path,
    {
        &self.ffprobe_path
    }
}

/// The arguments with which a file is inspected.
pub open spec fn inspection_arguments(path: Seq<u8>) -> Seq<ArgumentView> {
    seq![
        ArgumentView::Text("-v"@),
        ArgumentView::Text("error"@),
        ArgumentView::Text("-of"@),
        ArgumentView::Text("json"@),
        ArgumentView::Text("-show_streams"@),
        ArgumentView::Text("-show_format"@),
        ArgumentView::Text("-show_chapters"@),
        ArgumentView::Path(path),
    ]
}

impl FfmpegCliBackend {
    /// The two tools as one backend.
    pub fn new(paths: FfmpegToolchainPaths) -> (r: Self)
        ensures
            r@.ffmpeg_path == paths@.ffmpeg,
            r@.ffprobe_path == paths@.ffprobe,
    {
        FfmpegCliBackend { ffmpeg_path: paths.ffmpeg, ffprobe_path: paths.ffprobe }
    }

    /// The arguments with which a file is inspected.
    pub fn probe_arguments(path: &FilePath) -> (r: Vec<Argument>)
        ensures
            r.deep_view() == inspection_arguments(path@),
    {
        let mut r: Vec<Argument> = Vec::new();
        r.push(Argument::Text("-v".to_owned()));
        r.push(Argument::Text("error".to_owned()));
        r.push(Argument::Text("-of".to_owned()));
        r.push(Argument::Text("json".to_owned()));
        r.push(Argument::Text("-show_streams".to_owned()));
        r.push(Argument::Text("-show_format".to_owned()));
        r.push(Argument::Text("-show_chapters".to_owned()));
        r.push(Argument::Path(path.clone()));
        proof {
            assert(r.deep_view() =~= inspection_arguments(path@));
        }
        r
    }
}

/// A value of a document, as far as it is looked at.
#[derive(Debug, PartialEq, Eq)]
pub enum JsonValue {
    /// Nothing.
    Null,
    /// A truth value.
    Bool(bool),
    /// A number, as it is written out.
    Number(String),
    /// A text.
    Text(String),
    /// A list.
    Array,
    /// A table.
    Object,
}

/// A value of a document, as far as it is looked at.
pub enum JsonView {
    /// Nothing.
    Null,
    /// A truth value.
    Bool(bool),
    /// A number, as it is written out.
    Number(Seq<char>),
    /// A text.
    Text(Seq<char>),
    /// A list.
    Array,
    /// A table.
    Object,
}

impl View for JsonValue {
    type V = JsonView;

    open spec fn view(&self) -> JsonView {
        match self {
            JsonValue::Null => JsonView::Null,
            JsonValue::Bool(value) => JsonView::Bool(*value),
            JsonValue::Number(value) => JsonView::Number(value@),
            JsonValue::Text(value) => JsonView::Text(value@),
            JsonValue::Array => JsonView::Array,
            JsonValue::Object => JsonView::Object,
        }
    }
}

impl DeepView for JsonValue {
    type V = JsonView;

    open spec fn deep_view(&self) -> JsonView {
        self@
    }
}

impl Clone for JsonValue {
    fn clone(&self) -> (r: Self)
        ensures
            r@ == self@,
    {
        match self {
            JsonValue::Null => JsonValue::Null,
            JsonValue::Bool(value) => JsonValue::Bool(*value),
            JsonValue::Number(value) => JsonValue::Number(value.clone()),
            JsonValue::Text(value) => JsonValue::Text(value.clone()),
            JsonValue::Array => JsonValue::Array,
            JsonValue::Object => JsonValue::Object,
        }
    }
}

/// A stream as a document describes it.
#[derive(Debug, PartialEq, Eq)]
pub struct RawStream {
    /// Its index.
    pub index: Option<u32>,
    /// Its codec.
    pub codec_name: Option<String>,
    /// Its kind.
    pub codec_type: Option<String>,
    /// The profile of its codec.
    pub profile: Option<String>,
    /// Bits per second.
    pub bit_rate: Option<JsonValue>,
    /// Samples per second.
    pub sample_rate: Option<JsonValue>,
    /// Number of channels.
    pub channels: Option<JsonValue>,
    /// Name of the channel layout.
    pub channel_layout: Option<String>,
    /// Length of a tick.
    pub time_base: Option<String>,
    /// First tick.
    pub start_pts: Option<JsonValue>,
    /// Number of ticks.
    pub duration_ts: Option<JsonValue>,
    /// Its metadata.
    pub tags: TextMap<JsonValue>,
    /// Its flags.
    pub disposition: TextMap<JsonValue>,
}

/// A stream as a document describes it.
pub struct RawStreamView {
    /// Its index.
    pub index: Option<u32>,
    /// Its codec.
    pub codec_name: Option<Seq<char>>,
    /// Its kind.
    pub codec_type: Option<Seq<char>>,
    /// The profile of its codec.
    pub profile: Option<Seq<char>>,
    /// Bits per second.
    pub bit_rate: Option<JsonView>,
    /// Samples per second.
    pub sample_rate: Option<JsonView>,
    /// Number of channels.
    pub channels: Option<JsonView>,
    /// Name of the channel layout.
    pub channel_layout: Option<Seq<char>>,
    /// Length of a tick.
    pub time_base: Option<Seq<char>>,
    /// First tick.
    pub start_pts: Option<JsonView>,
    /// Number of ticks.
    pub duration_ts: Option<JsonView>,
    /// Its metadata.
    pub tags: Map<Seq<char>, JsonView>,
    /// Its flags.
    pub disposition: Map<Seq<char>, JsonView>,
}

impl View for RawStream {
    type V = RawStreamView;

    open spec fn view(&self) -> RawStreamView {
        RawStreamView {
            index: self.index,
            codec_name: self.codec_name.deep_view(),
            codec_type: self.codec_type.deep_view(),
            profile: self.profile.deep_view(),
            bit_rate: self.bit_rate.deep_view(),
            sample_rate: self.sample_rate.deep_view(),
            channels: self.channels.deep_view(),
            channel_layout: self.channel_layout.deep_view(),
            time_base: self.time_base.deep_view(),
            start_pts: self.start_pts.deep_view(),
            duration_ts: self.duration_ts.deep_view(),
            tags: self.tags@,
            disposition: self.disposition@,
        }
    }
}

impl DeepView for RawStream {
    type V = RawStreamView;

    open spec fn deep_view(&self) -> RawStreamView {
        self@
    }
}

/// A container as a document describes it.
#[derive(Debug, PartialEq, Eq)]
pub struct RawFormat {
    /// Its names.
    pub format_name: Option<String>,
    /// Seconds.
    pub duration: Option<JsonValue>,
    /// Seconds.
    pub start_time: Option<JsonValue>,
    /// Bits per second.
    pub bit_rate: Option<JsonValue>,
    /// Its metadata.
    pub tags: TextMap<JsonValue>,
}

/// A container as a document describes it.
pub struct RawFormatView {
    /// Its names.
    pub format_name: Option<Seq<char>>,
    /// Seconds.
    pub duration: Option<JsonView>,
    /// Seconds.
    pub start_time: Option<JsonView>,
    /// Bits per second.
    pub bit_rate: Option<JsonView>,
    /// Its metadata.
    pub tags: Map<Seq<char>, JsonView>,
}

impl View for RawFormat {
    type V = RawFormatView;

    open spec fn view(&self) -> RawFormatView {
        RawFormatView {
            format_name: self.format_name.deep_view(),
            duration: self.duration.deep_view(),
            start_time: self.start_time.deep_view(),
            bit_rate: self.bit_rate.deep_view(),
            tags: self.tags@,
        }
    }
}

impl DeepView for RawFormat {
    type V = RawFormatView;

    open spec fn deep_view(&self) -> RawFormatView {
        self@
    }
}

/// A chapter as a document describes it.
#[derive(Debug, PartialEq, Eq)]
pub struct RawChapter {
    /// Its number.
    pub id: Option<JsonValue>,
    /// Length of a tick.
    pub time_base: Option<String>,
    /// First tick.
    pub start: Option<JsonValue>,
    /// Last tick.
    pub end: Option<JsonValue>,
    /// Its metadata.
    pub tags: TextMap<JsonValue>,
}

/// A chapter as a document describes it.
pub struct RawChapterView {
    /// Its number.
    pub id: Option<JsonView>,
    /// Length of a tick.
    pub time_base: Option<Seq<char>>,
    /// First tick.
    pub start: Option<JsonView>,
    /// Last tick.
    pub end: Option<JsonView>,
    /// Its metadata.
    pub tags: Map<Seq<char>, JsonView>,
}

impl View for RawChapter {
    type V = RawChapterView;

    open spec fn view(&self) -> RawChapterView {
        RawChapterView {
            id: self.id.deep_view(),
            time_base: self.time_base.deep_view(),
            start: self.start.deep_view(),
            end: self.end.deep_view(),
            tags: self.tags@,
        }
    }
}

impl DeepView for RawChapter {
    type V = RawChapterView;

    open spec fn deep_view(&self) -> RawChapterView {
        self@
    }
}

/// A document as the inspection tool writes it.
#[derive(Debug, PartialEq, Eq)]
pub struct RawProbeDocument {
    /// The streams.
    pub streams: Vec<RawStream>,
    /// The chapters.
    pub chapters: Vec<RawChapter>,
    /// The container.
    pub format: Option<RawFormat>,
}

/// A document as the inspection tool writes it.
pub struct RawDocumentView {
    /// The streams.
    pub streams: Seq<RawStreamView>,
    /// The chapters.
    pub chapters: Seq<RawChapterView>,
    /// The container.
    pub format: Option<RawFormatView>,
}

impl View for RawProbeDocument {
    type V = RawDocumentView;

    open spec fn view(&self) -> RawDocumentView {
        RawDocumentView {
            streams: self.streams.deep_view(),
            chapters: self.chapters.deep_view(),
            format: self.format.deep_view(),
        }
    }
}

impl DeepView for RawProbeDocument {
    type V = RawDocumentView;

    open spec fn deep_view(&self) -> RawDocumentView {
        self@
    }
}

/// Where a field belongs.
pub open spec fn context_text(stream: Option<u32>) -> Seq<char> {
    match stream {
        Some(index) => " for stream "@ + number::decimal(index as int),
        None => seq![],
    }
}

/// The document lacks a field.
pub open spec fn missing_field(field: Seq<char>, stream: Option<u32>) -> ProbeErrorView {
    ProbeErrorView::MissingField { field, context: context_text(stream) }
}

/// A field has a value that it cannot have.
pub open spec fn invalid_field(
    field: Seq<char>,
    stream: Option<u32>,
    reason: Seq<char>,
) -> ProbeErrorView {
    ProbeErrorView::InvalidField { field, context: context_text(stream), reason }
}

fn context(stream: Option<StreamIndex>) -> (r: String)
    ensures
        r@ == context_text(stream.deep_view()),
{
    match stream {
        Some(index) => text::concat2(" for stream ", index.show().as_str()),
        None => {
            let r = String::new();
            proof {
                assert(r@ =~= seq![]);
            }
            r
        },
    }
}

fn missing(field: &'static str, stream: Option<StreamIndex>) -> (r: ProbeError)
    ensures
        r@ == missing_field(field@, stream.deep_view()),
{
    ProbeError::MissingField { field, context: context(stream) }
}

fn invalid(field: &'static str, stream: Option<StreamIndex>, reason: &str) -> (r: ProbeError)
    ensures
        r@ == invalid_field(field@, stream.deep_view(), reason@),
{
    ProbeError::InvalidField { field, context: context(stream), reason: reason.to_owned() }
}

/// The number that a value stands for, written out as text or not.
pub open spec fn json_unsigned(value: JsonView) -> Option<int> {
    match value {
        JsonView::Number(t) => number::read_unsigned(t, u64::MAX as int),
        JsonView::Text(t) => number::read_unsigned(t, u64::MAX as int),
        _ => None,
    }
}

/// The number that a value stands for, written out as text or not.
pub open spec fn json_signed(value: JsonView) -> Option<int> {
    match value {
        JsonView::Number(t) => number::read_signed(t, i64::MIN as int, i64::MAX as int),
        JsonView::Text(t) => number::read_signed(t, i64::MIN as int, i64::MAX as int),
        _ => None,
    }
}

fn parse_u64(value: &JsonValue) -> (r: Option<u64>)
    ensures
        number::opt_u64(r) == json_unsigned(value@),
{
    match value {
        JsonValue::Number(t) => number::parse_u64_text(t.as_str()),
        JsonValue::Text(t) => number::parse_u64_text(t.as_str()),
        _ => None,
    }
}

fn parse_i64(value: &JsonValue) -> (r: Option<i64>)
    ensures
        number::opt_i64(r) == json_signed(value@),
{
    match value {
        JsonValue::Number(t) => number::parse_i64_text(t.as_str()),
        JsonValue::Text(t) => number::parse_i64_text(t.as_str()),
        _ => None,
    }
}

/// What an optional number comes to.
pub enum Reading {
    /// There is none.
    Absent,
    /// There is something that is no usable number.
    Unusable,
    /// There is this number.
    Value(int),
}

impl Reading {
    /// The number, where there is a usable one.
    pub open spec fn unsigned(self) -> Option<u64> {
        match self {
            Reading::Value(n) => Some(n as u64),
            _ => None,
        }
    }

    /// The number, where there is a usable one.
    pub open spec fn signed(self) -> Option<i64> {
        match self {
            Reading::Value(n) => Some(n as i64),
            _ => None,
        }
    }

    /// What there is to know of it.
    pub open spec fn warning(self, field: Seq<char>, stream: Option<u32>) -> Seq<ProbeWarningView> {
        match self {
            Reading::Unusable => seq![ProbeWarningView::InvalidOptionalNumber { field, stream }],
            _ => seq![],
        }
    }
}

/// What an optional number above zero comes to.
pub open spec fn unsigned_reading(value: Option<JsonView>) -> Reading {
    match value {
        Some(v) => match json_unsigned(v) {
            Some(n) => if n == 0 {
                Reading::Unusable
            } else {
                Reading::Value(n)
            },
            None => Reading::Unusable,
        },
        None => Reading::Absent,
    }
}

/// What an optional number comes to.
pub open spec fn signed_reading(value: Option<JsonView>) -> Reading {
    match value {
        Some(v) => match json_signed(v) {
            Some(n) => Reading::Value(n),
            None => Reading::Unusable,
        },
        None => Reading::Absent,
    }
}

fn add_warning(warnings: &mut Vec<ProbeWarning>, warning: ProbeWarning)
    ensures
        final(warnings).deep_view() == old(warnings).deep_view() + seq![warning@],
{
    let ghost before = warnings.deep_view();
    warnings.push(warning);
    proof {
        assert(warnings.deep_view() =~= before + seq![warning@]);
    }
}

fn parse_optional_u64(
    value: &Option<JsonValue>,
    field: &'static str,
    stream: Option<StreamIndex>,
    warnings: &mut Vec<ProbeWarning>,
) -> (r: Option<u64>)
    ensures
        r == unsigned_reading(value.deep_view()).unsigned(),
        match r {
            Some(n) => n > 0 && unsigned_reading(value.deep_view()) == Reading::Value(n as int),
            None => !(unsigned_reading(value.deep_view()) is Value),
        },
        final(warnings).deep_view() == old(warnings).deep_view() + unsigned_reading(
            value.deep_view(),
        ).warning(field@, stream.deep_view()),
{
    proof {
        assert(warnings.deep_view() + seq![] =~= warnings.deep_view());
    }
    let value = match value {
        Some(v) => v,
        None => {
            return None;
        },
    };
    match parse_u64(value) {
        Some(n) => if n == 0 {
            add_warning(
                warnings,
                ProbeWarning::InvalidOptionalNumber { field: field.to_owned(), stream },
            );
            None
        } else {
            Some(n)
        },
        None => {
            add_warning(
                warnings,
                ProbeWarning::InvalidOptionalNumber { field: field.to_owned(), stream },
            );
            None
        },
    }
}

fn parse_optional_i64(
    value: &Option<JsonValue>,
    field: &'static str,
    stream: Option<StreamIndex>,
    warnings: &mut Vec<ProbeWarning>,
) -> (r: Option<i64>)
    ensures
        r == signed_reading(value.deep_view()).signed(),
        final(warnings).deep_view() == old(warnings).deep_view() + signed_reading(
            value.deep_view(),
        ).warning(field@, stream.deep_view()),
{
    proof {
        assert(warnings.deep_view() + seq![] =~= warnings.deep_view());
    }
    let value = match value {
        Some(v) => v,
        None => {
            return None;
        },
    };
    match parse_i64(value) {
        Some(n) => Some(n),
        None => {
            add_warning(
                warnings,
                ProbeWarning::InvalidOptionalNumber { field: field.to_owned(), stream },
            );
            None
        },
    }
}

fn parse_required_u64(
    value: &JsonValue,
    field: &'static str,
    stream: Option<StreamIndex>,
) -> (r: Result<u64, ProbeError>)
    ensures
        match r {
            Ok(n) => json_unsigned(value@) == Some(n as int),
            Err(e) => json_unsigned(value@) is None && e@ == invalid_field(
                field@,
                stream.deep_view(),
                "expected a non-negative integer"@,
            ),
        },
{
    match parse_u64(value) {
        Some(n) => Ok(n),
        None => Err(invalid(field, stream, "expected a non-negative integer")),
    }
}

/// Why a required number cannot be read.
pub open spec fn required_fault(
    value: Option<JsonView>,
    field: Seq<char>,
) -> Option<ProbeErrorView> {
    match value {
        None => Some(missing_field(field, None)),
        Some(v) => match json_signed(v) {
            Some(_) => None,
            None => Some(invalid_field(field, None, "expected an integer"@)),
        },
    }
}

fn parse_required_i64(value: &Option<JsonValue>, field: &'static str) -> (r: Result<i64, ProbeError>)
    ensures
        match r {
            Ok(n) => required_fault(value.deep_view(), field@) is None && value is Some
                && json_signed(value->0@) == Some(n as int),
            Err(e) => required_fault(value.deep_view(), field@) == Some(e@),
        },
{
    match value {
        None => Err(missing(field, None)),
        Some(v) => match parse_i64(v) {
            Some(n) => Ok(n),
            None => Err(invalid(field, None, "expected an integer")),
        },
    }
}

/// A time base as text: numerator, slash, denominator.
pub open spec fn time_base_of(
    value: Seq<char>,
    field: Seq<char>,
    stream: Option<u32>,
) -> Result<TimeBaseView, ProbeErrorView> {
    match text::split_once(value, '/') {
        None => Err(invalid_field(field, stream, "expected numerator/denominator"@)),
        Some((a, b)) => match (
            number::read_unsigned(a, u32::MAX as int),
            number::read_unsigned(b, u32::MAX as int),
        ) {
            (None, _) => Err(invalid_field(field, stream, "invalid numerator"@)),
            (Some(_), None) => Err(invalid_field(field, stream, "invalid denominator"@)),
            (Some(n), Some(d)) => if n == 0 || d == 0 {
                Err(ProbeErrorView::Model(ModelErrorView::InvalidTimeBase))
            } else {
                Ok(TimeBaseView { numerator: n as u32, denominator: d as u32 })
            },
        },
    }
}

fn parse_time_base(value: &str, field: &'static str, stream: Option<StreamIndex>) -> (r: Result<
    TimeBase,
    ProbeError,
>)
    ensures
        match r {
            Ok(t) => time_base_of(value@, field@, stream.deep_view()) == Ok::<_, ProbeErrorView>(
                t@,
            ),
            Err(e) => time_base_of(value@, field@, stream.deep_view()) == Err::<TimeBaseView, _>(
                e@,
            ),
        },
{
    let (a, b) = match text::cut_once(value, '/') {
        Some((a, b)) => (a, b),
        None => {
            return Err(invalid(field, stream, "expected numerator/denominator"));
        },
    };
    let numerator = match number::parse_u32_text(a.as_str()) {
        Some(n) => n,
        None => {
            return Err(invalid(field, stream, "invalid numerator"));
        },
    };
    let denominator = match number::parse_u32_text(b.as_str()) {
        Some(n) => n,
        None => {
            return Err(invalid(field, stream, "invalid denominator"));
        },
    };
    match TimeBase::new(numerator, denominator) {
        Ok(t) => Ok(t),
        Err(e) => Err(ProbeError::Model(e)),
    }
}

/// The first six digits of a fraction, filled up with zeros.
pub open spec fn six_digits(fraction: Seq<char>) -> Seq<char> {
    if fraction.len() >= 6 {
        fraction.take(6)
    } else {
        fraction + Seq::new((6 - fraction.len()) as nat, |i: int| '0')
    }
}

/// What stands behind a single sign.
pub open spec fn without_sign(s: Seq<char>) -> Seq<char> {
    if s.len() > 0 && (s[0] == '-' || s[0] == '+') {
        s.drop_first()
    } else {
        s
    }
}

/// The microseconds that a decimal number of seconds stands for, cut after six places.
pub open spec fn decimal_micros(value: Seq<char>, signed: bool) -> Option<int> {
    let s = text::trim(value);
    let negative = s.len() > 0 && s[0] == '-';
    let rest = without_sign(s);
    let (whole, fraction) = match text::split_once(rest, '.') {
        Some((a, b)) => (a, b),
        None => (rest, seq![]),
    };
    let seconds = number::read_signed(whole, i64::MIN as int, i64::MAX as int);
    let micros = number::read_signed(six_digits(fraction), i64::MIN as int, i64::MAX as int);
    if negative && !signed {
        None
    } else if seconds is None || micros is None {
        None
    } else {
        let scaled = seconds->0 * 1_000_000;
        let total = scaled + micros->0;
        if i64::MIN <= scaled <= i64::MAX && i64::MIN <= total <= i64::MAX {
            Some(
                if negative {
                    -total
                } else {
                    total
                },
            )
        } else {
            None
        }
    }
}

fn pad_fraction(fraction: &str) -> (r: String)
    ensures
        r@ == six_digits(fraction@),
{
    let chars = text::chars_of(fraction);
    if chars.len() >= 6 {
        let r = text::slice_text(&chars, 0, 6);
        proof {
            assert(r@ =~= fraction@.take(6));
        }
        return r;
    }
    let mut r = fraction.to_owned();
    let mut i: usize = chars.len();
    while i < 6
        invariant
            chars@ == fraction@,
            chars@.len() <= i <= 6,
            r@ == fraction@ + Seq::new((i - fraction@.len()) as nat, |k: int| '0'),
        decreases 6 - i,
    {
        r.push('0');
        i = i + 1;
        proof {
            assert(r@ =~= fraction@ + Seq::new((i - fraction@.len()) as nat, |k: int| '0'));
        }
    }
    r
}

proof fn lemma_six_digits(fraction: Seq<char>)
    ensures
        number::read_signed(six_digits(fraction), i64::MIN as int, i64::MAX as int) matches Some(
            n,
        ) ==> -100_000 < n < 1_000_000,
{
    let s = six_digits(fraction);
    assert(s.len() == 6);
    reveal_with_fuel(number::pow10, 7);
    if s[0] == '-' {
        let rest = s.drop_first();
        if text::all_digits(rest) {
            number::lemma_number_bound(rest);
        }
    } else if s[0] == '+' {
        let rest = s.drop_first();
        if text::all_digits(rest) {
            number::lemma_number_bound(rest);
        }
    } else if text::all_digits(s) {
        number::lemma_number_bound(s);
    }
}

/// The microseconds that a decimal number of seconds stands for, cut after six places. Nothing is
/// rounded.
pub fn parse_decimal_micros(value: &str, signed: bool) -> (r: Option<i64>)
    ensures
        number::opt_i64(r) == decimal_micros(value@, signed),
{
    let trimmed = text::trimmed(value);
    let chars = text::chars_of(trimmed.as_str());
    let n: usize = chars.len();
    let negative = n > 0 && chars[0] == '-';
    if negative && !signed {
        return None;
    }
    let start: usize = if n > 0 && (chars[0] == '-' || chars[0] == '+') {
        1
    } else {
        0
    };
    let rest = text::slice_text(&chars, start, n);
    proof {
        assert(rest@ =~= without_sign(trimmed@));
    }
    let (whole, fraction) = match text::cut_once(rest.as_str(), '.') {
        Some((a, b)) => (a, b),
        None => {
            let empty = String::new();
            proof {
                assert(empty@ =~= seq![]);
            }
            (rest, empty)
        },
    };
    let seconds = match number::parse_i64_text(whole.as_str()) {
        Some(s) => s,
        None => {
            return None;
        },
    };
    let micros = match number::parse_i64_text(pad_fraction(fraction.as_str()).as_str()) {
        Some(m) => m,
        None => {
            return None;
        },
    };
    proof {
        lemma_six_digits(fraction@);
    }
    let scaled = match seconds.checked_mul(1_000_000) {
        Some(s) => s,
        None => {
            return None;
        },
    };
    match scaled.checked_add(micros) {
        Some(total) => {
            if negative {
                Some(-total)
            } else {
                Some(total)
            }
        },
        None => None,
    }
}

/// What an optional number of seconds comes to.
pub open spec fn micros_reading(value: Option<JsonView>, signed: bool) -> Result<Reading, ()> {
    match value {
        None => Ok(Reading::Absent),
        Some(JsonView::Number(t)) => match decimal_micros(t, signed) {
            Some(n) => Ok(Reading::Value(n)),
            None => Err(()),
        },
        Some(JsonView::Text(t)) => if text::lower(t) == "n/a"@ || t.len() == 0 {
            Ok(Reading::Unusable)
        } else {
            match decimal_micros(t, signed) {
                Some(n) => Ok(Reading::Value(n)),
                None => Err(()),
            }
        },
        Some(_) => Ok(Reading::Unusable),
    }
}

fn parse_optional_decimal_micros(
    value: &Option<JsonValue>,
    field: &'static str,
    signed: bool,
    warnings: &mut Vec<ProbeWarning>,
) -> (r: Result<Option<i64>, ProbeError>)
    ensures
        match r {
            Ok(n) => micros_reading(value.deep_view(), signed) is Ok && n == micros_reading(
                value.deep_view(),
                signed,
            )->Ok_0.signed() && final(warnings).deep_view() == old(warnings).deep_view()
                + micros_reading(value.deep_view(), signed)->Ok_0.warning(field@, None),
            Err(e) => micros_reading(value.deep_view(), signed) is Err && e@ == invalid_field(
                field@,
                None,
                "invalid decimal seconds"@,
            ) && final(warnings).deep_view() == old(warnings).deep_view(),
        },
{
    proof {
        assert(warnings.deep_view() + seq![] =~= warnings.deep_view());
        reveal_strlit("n/a");
        assert("n/a"@ =~= seq!['n', '/', 'a']);
        assert(text::lower("n/a"@) =~= "n/a"@);
    }
    let usable = match value {
        None => {
            return Ok(None);
        },
        Some(JsonValue::Number(t)) => Some(t),
        Some(JsonValue::Text(t)) => if text::same_ignoring_case(t.as_str(), "n/a")
            || text::chars_of(t.as_str()).len() == 0 {
            None
        } else {
            Some(t)
        },
        Some(_) => None,
    };
    match usable {
        Some(t) => match parse_decimal_micros(t.as_str(), signed) {
            Some(n) => Ok(Some(n)),
            None => Err(invalid(field, None, "invalid decimal seconds")),
        },
        None => {
            add_warning(
                warnings,
                ProbeWarning::InvalidOptionalNumber { field: field.to_owned(), stream: None },
            );
            Ok(None)
        },
    }
}

/// A metadata value as text, where it has one.
pub open spec fn json_text(value: JsonView) -> Option<Seq<char>> {
    match value {
        JsonView::Text(t) => Some(t),
        JsonView::Number(t) => Some(t),
        JsonView::Bool(b) => Some(
            if b {
                "true"@
            } else {
                "false"@
            },
        ),
        _ => None,
    }
}

/// The entries that have a text.
pub open spec fn text_entries(pairs: Seq<(Seq<char>, JsonView)>) -> MetadataView
    decreases pairs.len(),
{
    if pairs.len() == 0 {
        Map::empty()
    } else {
        let rest = text_entries(pairs.drop_last());
        match json_text(pairs.last().1) {
            Some(t) => rest.insert(pairs.last().0, t),
            None => rest,
        }
    }
}

/// What there is to know of the entries that have none.
pub open spec fn entry_warnings(
    pairs: Seq<(Seq<char>, JsonView)>,
    stream: Option<u32>,
) -> Seq<ProbeWarningView>
    decreases pairs.len(),
{
    if pairs.len() == 0 {
        seq![]
    } else {
        let rest = entry_warnings(pairs.drop_last(), stream);
        match json_text(pairs.last().1) {
            Some(_) => rest,
            None => rest + seq![
                ProbeWarningView::UnsupportedMetadataValue { key: pairs.last().0, stream },
            ],
        }
    }
}

/// The metadata of a document.
pub open spec fn metadata_of(tags: Map<Seq<char>, JsonView>) -> MetadataView {
    text_entries(table::listing(tags))
}

/// Why the metadata of a document is not valid.
pub open spec fn metadata_fault(tags: Map<Seq<char>, JsonView>) -> Option<ProbeErrorView> {
    let m = metadata_of(tags);
    if model::metadata_sound(m) {
        None
    } else {
        match model::entries_fault(table::listing(m)) {
            Some(e) => Some(ProbeErrorView::Model(e)),
            None => None,
        }
    }
}

/// What there is to know of the metadata of a document.
pub open spec fn metadata_warnings(
    tags: Map<Seq<char>, JsonView>,
    stream: Option<u32>,
) -> Seq<ProbeWarningView> {
    entry_warnings(table::listing(tags), stream)
}

fn metadata_text(value: &JsonValue) -> (r: Option<String>)
    ensures
        r.deep_view() == json_text(value@),
{
    match value {
        JsonValue::Text(t) => Some(t.clone()),
        JsonValue::Number(t) => Some(t.clone()),
        JsonValue::Bool(b) => Some(
            if *b {
                "true".to_owned()
            } else {
                "false".to_owned()
            },
        ),
        _ => None,
    }
}

fn convert_metadata(
    raw: &TextMap<JsonValue>,
    stream: Option<StreamIndex>,
    warnings: &mut Vec<ProbeWarning>,
) -> (r: Result<Metadata, ProbeError>)
    ensures
        final(warnings).deep_view() == old(warnings).deep_view() + metadata_warnings(
            raw@,
            stream.deep_view(),
        ),
        match r {
            Ok(m) => metadata_fault(raw@) is None && m@ == metadata_of(raw@),
            Err(e) => metadata_fault(raw@) == Some(e@),
        },
{
    let mut values: TextMap<String> = TextMap::new();
    raw.order();
    let ghost pairs = raw.pairs();
    let ghost before = warnings.deep_view();
    let ghost s = stream.deep_view();
    let mut i: usize = 0;
    proof {
        assert(before + entry_warnings(pairs.take(0), s) =~= before);
    }
    while i < raw.len()
        invariant
            pairs == raw.pairs(),
            s == stream.deep_view(),
            i <= pairs.len(),
            values@ == text_entries(pairs.take(i as int)),
            warnings.deep_view() == before + entry_warnings(pairs.take(i as int), s),
        decreases pairs.len() - i,
    {
        proof {
            assert(pairs.take(i + 1).drop_last() =~= pairs.take(i as int));
            assert(pairs.take(i + 1).last() == pairs[i as int]);
        }
        let key = raw.key_at(i).to_owned();
        match metadata_text(raw.value_at(i)) {
            Some(value) => values.insert(key, value),
            None => {
                add_warning(warnings, ProbeWarning::UnsupportedMetadataValue { key, stream });
                proof {
                    assert(warnings.deep_view() =~= before + entry_warnings(
                        pairs.take(i + 1),
                        s,
                    ));
                }
            },
        }
        i = i + 1;
    }
    proof {
        assert(pairs.take(i as int) =~= pairs);
    }
    match Metadata::new(values) {
        Ok(m) => Ok(m),
        Err(e) => Err(ProbeError::Model(e)),
    }
}

/// Whether a flag value stands for a flag that is on.
pub open spec fn json_enabled(value: JsonView) -> bool {
    match value {
        JsonView::Bool(b) => b,
        JsonView::Number(_) => json_signed(value) is Some && json_signed(value) != Some(0int),
        JsonView::Text(_) => json_signed(value) is Some && json_signed(value) != Some(0int),
        _ => false,
    }
}

/// The flags of a document.
pub open spec fn flags_of(pairs: Seq<(Seq<char>, JsonView)>) -> Map<Seq<char>, bool>
    decreases pairs.len(),
{
    if pairs.len() == 0 {
        Map::empty()
    } else {
        flags_of(pairs.drop_last()).insert(pairs.last().0, json_enabled(pairs.last().1))
    }
}

fn flag_enabled(value: &JsonValue) -> (r: bool)
    ensures
        r == json_enabled(value@),
{
    match value {
        JsonValue::Bool(b) => *b,
        JsonValue::Number(_) | JsonValue::Text(_) => match parse_i64(value) {
            Some(n) => n != 0,
            None => false,
        },
        _ => false,
    }
}

fn convert_dispositions(raw: &TextMap<JsonValue>) -> (r: Dispositions)
    ensures
        r@ == stream::with_known(flags_of(table::listing(raw@))),
{
    let mut flags: TextMap<bool> = TextMap::new();
    raw.order();
    let ghost pairs = raw.pairs();
    let mut i: usize = 0;
    while i < raw.len()
        invariant
            pairs == raw.pairs(),
            i <= pairs.len(),
            flags@ == flags_of(pairs.take(i as int)),
        decreases pairs.len() - i,
    {
        proof {
            assert(pairs.take(i + 1).drop_last() =~= pairs.take(i as int));
            assert(pairs.take(i + 1).last() == pairs[i as int]);
        }
        let enabled = flag_enabled(raw.value_at(i));
        flags.insert(raw.key_at(i).to_owned(), enabled);
        i = i + 1;
    }
    proof {
        assert(pairs.take(i as int) =~= pairs);
    }
    Dispositions::from_flags(flags)
}

/// Whether a stream of a document has a codec name.
pub open spec fn has_codec_name(raw: RawStreamView) -> bool {
    raw.codec_name is Some && text::trim(raw.codec_name->0).len() > 0
}

/// The codec name of a stream of a document.
pub open spec fn codec_name_of(raw: RawStreamView) -> Seq<char> {
    if has_codec_name(raw) {
        raw.codec_name->0
    } else {
        "unknown"@
    }
}

/// The time base of a stream of a document, where it has one.
pub open spec fn stream_time_base(raw: RawStreamView) -> Option<Result<TimeBaseView, ProbeErrorView>> {
    match raw.time_base {
        Some(t) => Some(time_base_of(t, "streams[].time_base"@, raw.index)),
        None => None,
    }
}

/// When a stream of a document starts, where both tick and time base are known.
pub open spec fn stream_start(raw: RawStreamView) -> Option<TimestampView> {
    match (signed_reading(raw.start_pts).signed(), stream_time_base(raw)) {
        (Some(ticks), Some(Ok(time_base))) => Some(TimestampView { ticks, time_base }),
        _ => None,
    }
}

/// What a stream of a document has in common with all streams.
pub open spec fn common_of(raw: RawStreamView) -> StreamCommonView {
    StreamCommonView {
        index: raw.index->0,
        codec_name: codec_name_of(raw),
        codec_profile: raw.profile,
        bitrate: unsigned_reading(raw.bit_rate).unsigned(),
        timing: StreamTimingView {
            start: stream_start(raw),
            duration_ticks: signed_reading(raw.duration_ts).signed(),
        },
        metadata: metadata_of(raw.tags),
        dispositions: stream::with_known(flags_of(table::listing(raw.disposition))),
    }
}

/// Why the audio of a document is not valid.
pub open spec fn audio_fault(raw: RawStreamView) -> Option<ProbeErrorView> {
    match raw.channels {
        None => Some(missing_field("streams[].channels"@, raw.index)),
        Some(value) => match json_unsigned(value) {
            None => Some(
                invalid_field(
                    "streams[].channels"@,
                    raw.index,
                    "expected a non-negative integer"@,
                ),
            ),
            Some(n) => if n > u16::MAX {
                Some(invalid_field("streams[].channels"@, raw.index, "does not fit u16"@))
            } else if n == 0 {
                Some(ProbeErrorView::Model(ModelErrorView::ZeroValue { field: "channels"@ }))
            } else {
                match unsigned_reading(raw.sample_rate) {
                    Reading::Value(rate) => if rate > u32::MAX {
                        Some(
                            invalid_field("streams[].sample_rate"@, raw.index, "does not fit u32"@),
                        )
                    } else {
                        None
                    },
                    _ => None,
                }
            },
        },
    }
}

/// Why a stream of a document is not valid: the first reason of these.
pub open spec fn stream_fault(raw: RawStreamView) -> Option<ProbeErrorView> {
    if raw.index is None {
        Some(missing_field("streams[].index"@, None))
    } else if raw.codec_type is None {
        Some(missing_field("streams[].codec_type"@, raw.index))
    } else if stream_time_base(raw) matches Some(Err(_)) {
        Some(stream_time_base(raw)->0->Err_0)
    } else if metadata_fault(raw.tags) is Some {
        metadata_fault(raw.tags)
    } else if model::text_fault("codec name"@, codec_name_of(raw)) is Some {
        Some(ProbeErrorView::Model(model::text_fault("codec name"@, codec_name_of(raw))->0))
    } else if raw.codec_type->0 == "audio"@ {
        audio_fault(raw)
    } else {
        None
    }
}

/// The audio stream of a document.
pub open spec fn audio_of(raw: RawStreamView) -> AudioStreamView {
    AudioStreamView {
        common: common_of(raw),
        codec: stream::codec_of(codec_name_of(raw), raw.profile),
        channels: ChannelsView {
            count: json_unsigned(raw.channels->0)->0 as u16,
            layout_name: raw.channel_layout,
        },
        sample_rate: match unsigned_reading(raw.sample_rate) {
            Reading::Value(rate) => Some(rate as u32),
            _ => None,
        },
    }
}

/// The stream of a document.
pub open spec fn stream_of(raw: RawStreamView) -> StreamInfoView {
    let kind = raw.codec_type->0;
    let common = common_of(raw);
    if kind == "video"@ {
        StreamInfoView::Video(common)
    } else if kind == "audio"@ {
        StreamInfoView::Audio(audio_of(raw))
    } else if kind == "subtitle"@ {
        StreamInfoView::Subtitle(common)
    } else if kind == "attachment"@ {
        StreamInfoView::Attachment(
            AttachmentStreamView {
                common,
                filename: model::lookup(common.metadata, "filename"@),
                mime_type: model::lookup(common.metadata, "mimetype"@),
            },
        )
    } else if kind == "data"@ {
        StreamInfoView::Data(common)
    } else {
        StreamInfoView::Unknown(UnknownStreamView { common, kind })
    }
}

/// What there is to know of the codec and the bitrate of a stream of a document.
pub open spec fn codec_warnings(raw: RawStreamView) -> Seq<ProbeWarningView> {
    let codec = if has_codec_name(raw) {
        seq![]
    } else {
        seq![ProbeWarningView::MissingCodecName { stream: raw.index->0 }]
    };
    codec + unsigned_reading(raw.bit_rate).warning("streams[].bit_rate"@, raw.index)
}

/// What there is to know of a stream of a document, whatever its kind.
pub open spec fn common_warnings(raw: RawStreamView) -> Seq<ProbeWarningView> {
    codec_warnings(raw) + signed_reading(raw.start_pts).warning(
        "streams[].start_pts"@,
        raw.index,
    ) + signed_reading(raw.duration_ts).warning("streams[].duration_ts"@, raw.index)
        + metadata_warnings(raw.tags, raw.index)
}

/// What there is to know of a stream of a document.
pub open spec fn stream_warnings(raw: RawStreamView) -> Seq<ProbeWarningView> {
    common_warnings(raw) + if raw.codec_type == Some("audio"@) {
        unsigned_reading(raw.sample_rate).warning("streams[].sample_rate"@, raw.index)
    } else {
        seq![]
    }
}

/// What is noted of a stream of a document: all there is to know of it, or where it is not valid
/// what was met before the reason.
pub open spec fn stream_noted(raw: RawStreamView) -> Seq<ProbeWarningView> {
    if stream_fault(raw) is None {
        stream_warnings(raw)
    } else if raw.index is None || raw.codec_type is None {
        seq![]
    } else if stream_time_base(raw) matches Some(Err(_)) {
        codec_warnings(raw)
    } else {
        common_warnings(raw)
    }
}

fn to_bitrate(value: Option<u64>) -> (r: Option<Bitrate>)
    requires
        value matches Some(n) ==> n > 0,
    ensures
        r.deep_view() == value,
{
    match value {
        Some(n) => match Bitrate::new(n) {
            Ok(b) => Some(b),
            Err(_) => None,
        },
        None => None,
    }
}

fn convert_common(
    raw: &RawStream,
    index: StreamIndex,
    warnings: &mut Vec<ProbeWarning>,
) -> (r: Result<StreamCommon, ProbeError>)
    requires
        raw.index == Some(index@),
    ensures
        ({
            let plain = RawStreamView { codec_type: Some(seq![]), ..raw@ };
            &&& final(warnings).deep_view() == old(warnings).deep_view() + stream_noted(plain)
            &&& match r {
                Ok(c) => stream_fault(plain) is None && c@ == common_of(raw@),
                Err(e) => stream_fault(plain) == Some(e@),
            }
        }),
{
    let ghost plain = RawStreamView { codec_type: Some(seq![]), ..raw@ };
    let ghost w0 = warnings.deep_view();
    proof {
        reveal_strlit("audio");
        assert("audio"@ != Seq::<char>::empty()) by {
            assert("audio"@.len() == 5);
        }
    }
    let known = match &raw.codec_name {
        Some(name) => text::chars_of(text::trimmed(name.as_str()).as_str()).len() > 0,
        None => false,
    };
    let codec_name = if known {
        match &raw.codec_name {
            Some(name) => name.clone(),
            None => String::new(),
        }
    } else {
        add_warning(warnings, ProbeWarning::MissingCodecName { stream: index });
        "unknown".to_owned()
    };
    proof {
        assert(codec_name@ == codec_name_of(raw@));
        assert(index.deep_view() == index@);
        assert(Some(index).deep_view() == raw@.index);
    }
    let bitrate = to_bitrate(
        parse_optional_u64(&raw.bit_rate, "streams[].bit_rate", Some(index), warnings),
    );
    proof {
        assert(warnings.deep_view() =~= w0 + codec_warnings(plain));
    }
    let time_base = match &raw.time_base {
        Some(value) => match parse_time_base(
            value.as_str(),
            "streams[].time_base",
            Some(index),
        ) {
            Ok(t) => Some(t),
            Err(e) => {
                return Err(e);
            },
        },
        None => None,
    };
    let start_pts = parse_optional_i64(
        &raw.start_pts,
        "streams[].start_pts",
        Some(index),
        warnings,
    );
    let duration_ticks = parse_optional_i64(
        &raw.duration_ts,
        "streams[].duration_ts",
        Some(index),
        warnings,
    );
    let start = match (start_pts, time_base) {
        (Some(ticks), Some(base)) => Some(MediaTimestamp::new(ticks, base)),
        _ => None,
    };
    let timing = StreamTiming::new(start, duration_ticks);
    let converted = convert_metadata(&raw.tags, Some(index), warnings);
    proof {
        assert(warnings.deep_view() =~= w0 + common_warnings(plain));
        assert(stream_warnings(plain) =~= common_warnings(plain));
    }
    let metadata = match converted {
        Ok(m) => m,
        Err(e) => {
            return Err(e);
        },
    };
    let dispositions = convert_dispositions(&raw.disposition);
    match StreamCommon::new(index, codec_name.as_str()) {
        Ok(c) => Ok(
            c.with_profile(text::copy_text(&raw.profile)).with_bitrate(bitrate).with_timing(
                timing,
            ).with_metadata(metadata).with_dispositions(dispositions),
        ),
        Err(e) => Err(ProbeError::Model(e)),
    }
}

fn convert_audio(
    raw: &RawStream,
    index: StreamIndex,
    common: StreamCommon,
    warnings: &mut Vec<ProbeWarning>,
) -> (r: Result<StreamInfo, ProbeError>)
    requires
        raw.index == Some(index@),
        common@ == common_of(raw@),
    ensures
        match r {
            Ok(s) => audio_fault(raw@) is None && s@ == StreamInfoView::Audio(audio_of(raw@))
                && final(warnings).deep_view() == old(warnings).deep_view() + unsigned_reading(
                raw@.sample_rate,
            ).warning("streams[].sample_rate"@, raw@.index),
            Err(e) => audio_fault(raw@) == Some(e@) && final(warnings).deep_view() == old(
                warnings,
            ).deep_view(),
        },
{
    proof {
        assert(Some(index).deep_view() == raw@.index);
        assert(warnings.deep_view() + seq![] =~= warnings.deep_view());
    }
    let value = match &raw.channels {
        Some(v) => v,
        None => {
            return Err(missing("streams[].channels", Some(index)));
        },
    };
    let number = match parse_required_u64(value, "streams[].channels", Some(index)) {
        Ok(n) => n,
        Err(e) => {
            return Err(e);
        },
    };
    if number > 65_535 {
        return Err(invalid("streams[].channels", Some(index), "does not fit u16"));
    }
    let count = match ChannelCount::new(number as u16) {
        Ok(c) => c,
        Err(e) => {
            return Err(ProbeError::Model(e));
        },
    };
    let rate = match parse_optional_u64(
        &raw.sample_rate,
        "streams[].sample_rate",
        Some(index),
        warnings,
    ) {
        Some(n) => {
            if n > 0xffff_ffff {
                return Err(invalid("streams[].sample_rate", Some(index), "does not fit u32"));
            }
            match SampleRate::new(n as u32) {
                Ok(s) => Some(s),
                Err(e) => {
                    return Err(ProbeError::Model(e));
                },
            }
        },
        None => None,
    };
    let codec = AudioCodec::from_ffprobe(common.codec_name(), text::text_ref(&raw.profile));
    let channels = Channels::new(count, text::copy_text(&raw.channel_layout));
    Ok(StreamInfo::Audio(AudioStream::new(common, codec, channels, rate)))
}

/// Turns a stream of a document into one of the model, and adds what is noted of it.
pub fn convert_stream(raw: &RawStream, warnings: &mut Vec<ProbeWarning>) -> (r: Result<
    StreamInfo,
    ProbeError,
>)
    ensures
        final(warnings).deep_view() == old(warnings).deep_view() + stream_noted(raw@),
        match r {
            Ok(s) => stream_fault(raw@) is None && s@ == stream_of(raw@),
            Err(e) => stream_fault(raw@) == Some(e@),
        },
{
    proof {
        assert(warnings.deep_view() + seq![] =~= warnings.deep_view());
    }
    let index = match raw.index {
        Some(n) => StreamIndex::new(n),
        None => {
            return Err(missing("streams[].index", None));
        },
    };
    proof {
        assert(Some(index).deep_view() == raw@.index);
        reveal_strlit("audio");
        assert("audio"@ != Seq::<char>::empty()) by {
            assert("audio"@.len() == 5);
        }
    }
    let kind = match &raw.codec_type {
        Some(k) => k.as_str(),
        None => {
            return Err(missing("streams[].codec_type", Some(index)));
        },
    };
    let ghost w0 = warnings.deep_view();
    let common = match convert_common(raw, index, warnings) {
        Ok(c) => c,
        Err(e) => {
            return Err(e);
        },
    };
    let ghost plain = RawStreamView { codec_type: Some(seq![]), ..raw@ };
    proof {
        reveal_strlit("video");
        reveal_strlit("subtitle");
        reveal_strlit("attachment");
        reveal_strlit("data");
        assert("video"@[0] == 'v' && "audio"@[0] == 'a');
        assert("subtitle"@.len() == 8 && "attachment"@.len() == 10 && "data"@.len() == 4);
        assert(stream_warnings(plain) =~= common_warnings(raw@));
        assert(kind@ != "audio"@ ==> stream_warnings(raw@) =~= common_warnings(raw@));
    }
    if text::same(kind, "video") {
        Ok(StreamInfo::Video(VideoStream::new(common)))
    } else if text::same(kind, "audio") {
        let r = convert_audio(raw, index, common, warnings);
        proof {
            if r is Ok {
                assert(warnings.deep_view() =~= w0 + stream_warnings(raw@));
            } else {
                assert(warnings.deep_view() =~= w0 + common_warnings(raw@));
            }
        }
        r
    } else if text::same(kind, "subtitle") {
        Ok(StreamInfo::Subtitle(SubtitleStream::new(common)))
    } else if text::same(kind, "attachment") {
        let filename = text::owned(common.metadata().get("filename"));
        let mime_type = text::owned(common.metadata().get("mimetype"));
        Ok(StreamInfo::Attachment(AttachmentStream::new(common, filename, mime_type)))
    } else if text::same(kind, "data") {
        Ok(StreamInfo::Data(DataStream::new(common)))
    } else {
        Ok(StreamInfo::Unknown(UnknownStream::new(common, kind.to_owned())))
    }
}

/// Why a chapter of a document is not valid: the first reason of these.
pub open spec fn chapter_fault(raw: RawChapterView) -> Option<ProbeErrorView> {
    if required_fault(raw.id, "chapters[].id"@) is Some {
        required_fault(raw.id, "chapters[].id"@)
    } else if raw.time_base is None {
        Some(missing_field("chapters[].time_base"@, None))
    } else if time_base_of(raw.time_base->0, "chapters[].time_base"@, None) is Err {
        Some(time_base_of(raw.time_base->0, "chapters[].time_base"@, None)->Err_0)
    } else if required_fault(raw.start, "chapters[].start"@) is Some {
        required_fault(raw.start, "chapters[].start"@)
    } else if required_fault(raw.end, "chapters[].end"@) is Some {
        required_fault(raw.end, "chapters[].end"@)
    } else if metadata_fault(raw.tags) is Some {
        metadata_fault(raw.tags)
    } else if json_signed(raw.end->0)->0 < json_signed(raw.start->0)->0 {
        Some(
            ProbeErrorView::Model(
                ModelErrorView::InvalidChapterRange { id: json_signed(raw.id->0)->0 as i64 },
            ),
        )
    } else {
        None
    }
}

/// The chapter of a document.
pub open spec fn chapter_of(raw: RawChapterView) -> ChapterView {
    ChapterView {
        id: json_signed(raw.id->0)->0 as i64,
        time_base: time_base_of(raw.time_base->0, "chapters[].time_base"@, None)->Ok_0,
        start: json_signed(raw.start->0)->0 as i64,
        end: json_signed(raw.end->0)->0 as i64,
        metadata: metadata_of(raw.tags),
    }
}

/// What is noted of a chapter of a document: what there is to know of its metadata, unless it is not
/// valid for a reason that was met before.
pub open spec fn chapter_noted(raw: RawChapterView) -> Seq<ProbeWarningView> {
    if required_fault(raw.id, "chapters[].id"@) is Some || raw.time_base is None || time_base_of(
        raw.time_base->0,
        "chapters[].time_base"@,
        None,
    ) is Err || required_fault(raw.start, "chapters[].start"@) is Some || required_fault(
        raw.end,
        "chapters[].end"@,
    ) is Some {
        seq![]
    } else {
        metadata_warnings(raw.tags, None)
    }
}

/// Turns a chapter of a document into one of the model, and adds what is noted of it.
pub fn convert_chapter(raw: &RawChapter, warnings: &mut Vec<ProbeWarning>) -> (r: Result<
    Chapter,
    ProbeError,
>)
    ensures
        final(warnings).deep_view() == old(warnings).deep_view() + chapter_noted(raw@),
        match r {
            Ok(c) => chapter_fault(raw@) is None && c@ == chapter_of(raw@),
            Err(e) => chapter_fault(raw@) == Some(e@),
        },
{
    proof {
        assert(warnings.deep_view() + seq![] =~= warnings.deep_view());
    }
    let id = match parse_required_i64(&raw.id, "chapters[].id") {
        Ok(n) => n,
        Err(e) => {
            return Err(e);
        },
    };
    let time_base = match &raw.time_base {
        Some(value) => match parse_time_base(value.as_str(), "chapters[].time_base", None) {
            Ok(t) => t,
            Err(e) => {
                return Err(e);
            },
        },
        None => {
            return Err(missing("chapters[].time_base", None));
        },
    };
    let start = match parse_required_i64(&raw.start, "chapters[].start") {
        Ok(n) => n,
        Err(e) => {
            return Err(e);
        },
    };
    let end = match parse_required_i64(&raw.end, "chapters[].end") {
        Ok(n) => n,
        Err(e) => {
            return Err(e);
        },
    };
    let metadata = match convert_metadata(&raw.tags, None, warnings) {
        Ok(m) => m,
        Err(e) => {
            return Err(e);
        },
    };
    match Chapter::new(id, time_base, start, end, metadata) {
        Ok(c) => Ok(c),
        Err(e) => Err(ProbeError::Model(e)),
    }
}

/// A signed number as the machine reads it without sign.
pub open spec fn reinterpreted(n: int) -> u64 {
    if n < 0 {
        (n + 0x1_0000_0000_0000_0000) as u64
    } else {
        n as u64
    }
}

fn reinterpret(n: i64) -> (r: u64)
    ensures
        r == reinterpreted(n as int),
{
    if n < 0 {
        (n as i128 + 0x1_0000_0000_0000_0000i128) as u64
    } else {
        n as u64
    }
}

/// Why the container of a document is not valid: the first reason of these.
pub open spec fn format_fault(format: Option<RawFormatView>) -> Option<ProbeErrorView> {
    match format {
        None => Some(missing_field("format"@, None)),
        Some(raw) => if raw.format_name is None {
            Some(missing_field("format.format_name"@, None))
        } else if metadata_fault(raw.tags) is Some {
            metadata_fault(raw.tags)
        } else if micros_reading(raw.duration, false) is Err {
            Some(invalid_field("format.duration"@, None, "invalid decimal seconds"@))
        } else if micros_reading(raw.start_time, true) is Err {
            Some(invalid_field("format.start_time"@, None, "invalid decimal seconds"@))
        } else if media::format_names(text::split(raw.format_name->0, ',')).len() == 0 {
            Some(ProbeErrorView::Model(ModelErrorView::MissingFormatName))
        } else {
            None
        },
    }
}

/// The container of a document.
pub open spec fn format_of(raw: RawFormatView) -> FormatInfoView {
    FormatInfoView {
        names: media::format_names(text::split(raw.format_name->0, ',')),
        duration: match micros_reading(raw.duration, false)->Ok_0 {
            Reading::Value(n) => Some(reinterpreted(n)),
            _ => None,
        },
        start_time: micros_reading(raw.start_time, true)->Ok_0.signed(),
        bitrate: unsigned_reading(raw.bit_rate).unsigned(),
        metadata: metadata_of(raw.tags),
    }
}

/// What there is to know of the container of a document.
pub open spec fn format_warnings(raw: RawFormatView) -> Seq<ProbeWarningView> {
    metadata_warnings(raw.tags, None) + micros_reading(raw.duration, false)->Ok_0.warning(
        "format.duration"@,
        None,
    ) + micros_reading(raw.start_time, true)->Ok_0.warning("format.start_time"@, None)
        + unsigned_reading(raw.bit_rate).warning("format.bit_rate"@, None)
}

/// What is noted of the container of a document: all there is to know of it, or where it is not valid
/// what was met before the reason.
pub open spec fn format_noted(format: Option<RawFormatView>) -> Seq<ProbeWarningView> {
    match format {
        None => seq![],
        Some(raw) => if raw.format_name is None {
            seq![]
        } else if metadata_fault(raw.tags) is Some || micros_reading(raw.duration, false) is Err {
            metadata_warnings(raw.tags, None)
        } else if micros_reading(raw.start_time, true) is Err {
            metadata_warnings(raw.tags, None) + micros_reading(raw.duration, false)->Ok_0.warning(
                "format.duration"@,
                None,
            )
        } else {
            format_warnings(raw)
        },
    }
}

fn convert_format(format: &Option<RawFormat>, warnings: &mut Vec<ProbeWarning>) -> (r: Result<
    FormatInfo,
    ProbeError,
>)
    ensures
        final(warnings).deep_view() == old(warnings).deep_view() + format_noted(
            format.deep_view(),
        ),
        match r {
            Ok(f) => format_fault(format.deep_view()) is None && f@ == format_of(format->0@),
            Err(e) => format_fault(format.deep_view()) == Some(e@),
        },
{
    let ghost w0 = warnings.deep_view();
    proof {
        assert(w0 + seq![] =~= w0);
    }
    let raw = match format {
        Some(f) => f,
        None => {
            return Err(missing("format", None));
        },
    };
    let names = match &raw.format_name {
        Some(n) => text::pieces(n.as_str(), ','),
        None => {
            return Err(missing("format.format_name", None));
        },
    };
    let metadata = match convert_metadata(&raw.tags, None, warnings) {
        Ok(m) => m,
        Err(e) => {
            return Err(e);
        },
    };
    let duration = match parse_optional_decimal_micros(
        &raw.duration,
        "format.duration",
        false,
        warnings,
    ) {
        Ok(Some(n)) => Some(DurationMicros::new(reinterpret(n))),
        Ok(None) => None,
        Err(e) => {
            return Err(e);
        },
    };
    proof {
        lemma_micros_in_range(raw@.duration, false);
        lemma_micros_in_range(raw@.start_time, true);
    }
    proof {
        assert(warnings.deep_view() =~= w0 + (metadata_warnings(raw@.tags, None) + micros_reading(
            raw@.duration,
            false,
        )->Ok_0.warning("format.duration"@, None)));
    }
    let start_time = match parse_optional_decimal_micros(
        &raw.start_time,
        "format.start_time",
        true,
        warnings,
    ) {
        Ok(n) => n,
        Err(e) => {
            return Err(e);
        },
    };
    let bitrate = to_bitrate(parse_optional_u64(&raw.bit_rate, "format.bit_rate", None, warnings));
    proof {
        assert(warnings.deep_view() =~= w0 + format_warnings(raw@));
    }
    match FormatInfo::new(names) {
        Ok(f) => Ok(
            f.with_duration(duration).with_start_time(start_time).with_bitrate(
                bitrate,
            ).with_metadata(metadata),
        ),
        Err(e) => Err(ProbeError::Model(e)),
    }
}

proof fn lemma_micros_in_range(value: Option<JsonView>, signed: bool)
    ensures
        micros_reading(value, signed) matches Ok(Reading::Value(n)) ==> i64::MIN <= n <= i64::MAX,
{
    match value {
        Some(JsonView::Number(t)) => lemma_decimal_in_range(t, signed),
        Some(JsonView::Text(t)) => lemma_decimal_in_range(t, signed),
        _ => {},
    }
}

/// Microseconds that are read from seconds fit a machine number.
pub proof fn lemma_decimal_in_range(value: Seq<char>, signed: bool)
    ensures
        decimal_micros(value, signed) matches Some(n) ==> i64::MIN <= n <= i64::MAX,
{
    let rest = without_sign(text::trim(value));
    let fraction = match text::split_once(rest, '.') {
        Some((a, b)) => b,
        None => seq![],
    };
    lemma_six_digits(fraction);
}

/// Why the streams of a document are not valid: the first reason.
pub open spec fn streams_fault(raw: Seq<RawStreamView>) -> Option<ProbeErrorView>
    decreases raw.len(),
{
    if raw.len() == 0 {
        None
    } else if streams_fault(raw.drop_last()) is Some {
        streams_fault(raw.drop_last())
    } else {
        stream_fault(raw.last())
    }
}

/// Why the chapters of a document are not valid: the first reason.
pub open spec fn chapters_fault(raw: Seq<RawChapterView>) -> Option<ProbeErrorView>
    decreases raw.len(),
{
    if raw.len() == 0 {
        None
    } else if chapters_fault(raw.drop_last()) is Some {
        chapters_fault(raw.drop_last())
    } else {
        chapter_fault(raw.last())
    }
}

/// The streams of a document.
pub open spec fn streams_of(raw: Seq<RawStreamView>) -> Seq<StreamInfoView> {
    Seq::new(raw.len(), |i: int| stream_of(raw[i]))
}

/// The chapters of a document.
pub open spec fn chapters_of(raw: Seq<RawChapterView>) -> Seq<ChapterView> {
    Seq::new(raw.len(), |i: int| chapter_of(raw[i]))
}

/// What there is to know of the streams of a document.
pub open spec fn streams_warnings(raw: Seq<RawStreamView>) -> Seq<ProbeWarningView>
    decreases raw.len(),
{
    if raw.len() == 0 {
        seq![]
    } else {
        streams_warnings(raw.drop_last()) + stream_warnings(raw.last())
    }
}

/// What is noted of the streams of a document, up to the first that is not valid.
pub open spec fn streams_noted(raw: Seq<RawStreamView>) -> Seq<ProbeWarningView>
    decreases raw.len(),
{
    if raw.len() == 0 {
        seq![]
    } else if streams_fault(raw.drop_last()) is Some {
        streams_noted(raw.drop_last())
    } else {
        streams_noted(raw.drop_last()) + stream_noted(raw.last())
    }
}

/// What is noted of the chapters of a document, up to the first that is not valid.
pub open spec fn chapters_noted(raw: Seq<RawChapterView>) -> Seq<ProbeWarningView>
    decreases raw.len(),
{
    if raw.len() == 0 {
        seq![]
    } else if chapters_fault(raw.drop_last()) is Some {
        chapters_noted(raw.drop_last())
    } else {
        chapters_noted(raw.drop_last()) + chapter_noted(raw.last())
    }
}

/// What there is to know of the chapters of a document.
pub open spec fn chapters_warnings(raw: Seq<RawChapterView>) -> Seq<ProbeWarningView>
    decreases raw.len(),
{
    if raw.len() == 0 {
        seq![]
    } else {
        chapters_warnings(raw.drop_last()) + metadata_warnings(raw.last().tags, None)
    }
}

/// Why the streams of a document make no media: there are none, or an index is repeated.
pub open spec fn collection_fault(streams: Seq<StreamInfoView>) -> Option<ProbeErrorView> {
    if streams.len() == 0 {
        Some(ProbeErrorView::Model(ModelErrorView::NoStreams))
    } else {
        match media::first_repeat(streams) {
            Some(index) => Some(
                ProbeErrorView::Model(ModelErrorView::DuplicateStreamIndex { index }),
            ),
            None => None,
        }
    }
}

/// Why a document describes no media: the first reason among container, streams, chapters and the
/// collection of the streams.
pub open spec fn document_fault(document: RawDocumentView) -> Option<ProbeErrorView> {
    if format_fault(document.format) is Some {
        format_fault(document.format)
    } else if streams_fault(document.streams) is Some {
        streams_fault(document.streams)
    } else if chapters_fault(document.chapters) is Some {
        chapters_fault(document.chapters)
    } else {
        collection_fault(streams_of(document.streams))
    }
}

/// The media that a document describes.
pub open spec fn media_of(path: Seq<u8>, document: RawDocumentView) -> MediaInfoView {
    MediaInfoView {
        path,
        format: format_of(document.format->0),
        streams: streams_of(document.streams),
        chapters: chapters_of(document.chapters),
        warnings: format_warnings(document.format->0) + streams_warnings(document.streams)
            + chapters_warnings(document.chapters),
    }
}

proof fn lemma_streams_fault(raw: Seq<RawStreamView>, i: int)
    requires
        0 <= i < raw.len(),
        streams_fault(raw.take(i)) is None,
        stream_fault(raw[i]) is Some,
    ensures
        streams_fault(raw) == stream_fault(raw[i]),
        streams_noted(raw) == streams_noted(raw.take(i)) + stream_noted(raw[i]),
    decreases raw.len(),
{
    if i == raw.len() - 1 {
        assert(raw.take(i) =~= raw.drop_last());
    } else {
        assert(raw.drop_last().take(i) =~= raw.take(i));
        lemma_streams_fault(raw.drop_last(), i);
    }
}

proof fn lemma_chapters_fault(raw: Seq<RawChapterView>, i: int)
    requires
        0 <= i < raw.len(),
        chapters_fault(raw.take(i)) is None,
        chapter_fault(raw[i]) is Some,
    ensures
        chapters_fault(raw) == chapter_fault(raw[i]),
        chapters_noted(raw) == chapters_noted(raw.take(i)) + chapter_noted(raw[i]),
    decreases raw.len(),
{
    if i == raw.len() - 1 {
        assert(raw.take(i) =~= raw.drop_last());
    } else {
        assert(raw.drop_last().take(i) =~= raw.take(i));
        lemma_chapters_fault(raw.drop_last(), i);
    }
}

proof fn lemma_all_streams_noted(raw: Seq<RawStreamView>)
    requires
        streams_fault(raw) is None,
    ensures
        streams_noted(raw) == streams_warnings(raw),
    decreases raw.len(),
{
    if raw.len() > 0 {
        lemma_all_streams_noted(raw.drop_last());
    }
}

proof fn lemma_all_chapters_noted(raw: Seq<RawChapterView>)
    requires
        chapters_fault(raw) is None,
    ensures
        chapters_noted(raw) == chapters_warnings(raw),
    decreases raw.len(),
{
    if raw.len() > 0 {
        lemma_all_chapters_noted(raw.drop_last());
    }
}

fn convert_streams(raw: &Vec<RawStream>, warnings: &mut Vec<ProbeWarning>) -> (r: Result<
    Vec<StreamInfo>,
    ProbeError,
>)
    ensures
        final(warnings).deep_view() == old(warnings).deep_view() + streams_noted(raw.deep_view()),
        match r {
            Ok(s) => streams_fault(raw.deep_view()) is None && s.deep_view() == streams_of(
                raw.deep_view(),
            ),
            Err(e) => streams_fault(raw.deep_view()) == Some(e@),
        },
{
    let ghost all = raw.deep_view();
    let ghost before = warnings.deep_view();
    let mut out: Vec<StreamInfo> = Vec::new();
    let mut i: usize = 0;
    proof {
        assert(out.deep_view() =~= streams_of(all.take(0)));
        assert(before + streams_noted(all.take(0)) =~= before);
    }
    while i < raw.len()
        invariant
            all == raw.deep_view(),
            i <= raw@.len(),
            streams_fault(all.take(i as int)) is None,
            out.deep_view() == streams_of(all.take(i as int)),
            before == old(warnings).deep_view(),
            warnings.deep_view() == before + streams_noted(all.take(i as int)),
        decreases raw@.len() - i,
    {
        let ghost so_far = out.deep_view();
        let ghost done = streams_noted(all.take(i as int));
        proof {
            assert(all[i as int] == raw@[i as int]@);
            assert(all.take(i + 1).drop_last() =~= all.take(i as int));
            assert(all.take(i + 1).last() == all[i as int]);
        }
        match convert_stream(&raw[i], warnings) {
            Ok(s) => {
                out.push(s);
                proof {
                    assert(out.deep_view() =~= so_far.push(s@));
                    assert(out.deep_view() =~= streams_of(all.take(i + 1)));
                    assert(warnings.deep_view() =~= before + (done + stream_noted(
                        all[i as int],
                    )));
                }
            },
            Err(e) => {
                proof {
                    lemma_streams_fault(all, i as int);
                    assert(warnings.deep_view() =~= before + (done + stream_noted(
                        all[i as int],
                    )));
                }
                return Err(e);
            },
        }
        i = i + 1;
    }
    proof {
        assert(all.take(i as int) =~= all);
    }
    Ok(out)
}

fn convert_chapters(raw: &Vec<RawChapter>, warnings: &mut Vec<ProbeWarning>) -> (r: Result<
    Vec<Chapter>,
    ProbeError,
>)
    ensures
        final(warnings).deep_view() == old(warnings).deep_view() + chapters_noted(
            raw.deep_view(),
        ),
        match r {
            Ok(c) => chapters_fault(raw.deep_view()) is None && c.deep_view() == chapters_of(
                raw.deep_view(),
            ),
            Err(e) => chapters_fault(raw.deep_view()) == Some(e@),
        },
{
    let ghost all = raw.deep_view();
    let ghost before = warnings.deep_view();
    let mut out: Vec<Chapter> = Vec::new();
    let mut i: usize = 0;
    proof {
        assert(out.deep_view() =~= chapters_of(all.take(0)));
        assert(before + chapters_noted(all.take(0)) =~= before);
    }
    while i < raw.len()
        invariant
            all == raw.deep_view(),
            i <= raw@.len(),
            chapters_fault(all.take(i as int)) is None,
            out.deep_view() == chapters_of(all.take(i as int)),
            before == old(warnings).deep_view(),
            warnings.deep_view() == before + chapters_noted(all.take(i as int)),
        decreases raw@.len() - i,
    {
        let ghost so_far = out.deep_view();
        let ghost done = chapters_noted(all.take(i as int));
        proof {
            assert(all[i as int] == raw@[i as int]@);
            assert(all.take(i + 1).drop_last() =~= all.take(i as int));
            assert(all.take(i + 1).last() == all[i as int]);
        }
        match convert_chapter(&raw[i], warnings) {
            Ok(c) => {
                out.push(c);
                proof {
                    assert(out.deep_view() =~= so_far.push(c@));
                    assert(out.deep_view() =~= chapters_of(all.take(i + 1)));
                    assert(warnings.deep_view() =~= before + (done + chapter_noted(
                        all[i as int],
                    )));
                }
            },
            Err(e) => {
                proof {
                    lemma_chapters_fault(all, i as int);
                    assert(warnings.deep_view() =~= before + (done + chapter_noted(
                        all[i as int],
                    )));
                }
                return Err(e);
            },
        }
        i = i + 1;
    }
    proof {
        assert(all.take(i as int) =~= all);
    }
    Ok(out)
}

/// Turns a document of the inspection tool into media. The error is the first reason why the
/// document describes none.
pub fn convert_document(path: FilePath, document: &RawProbeDocument) -> (r: Result<
    MediaInfo,
    ProbeError,
>)
    ensures
        match r {
            Ok(m) => document_fault(document@) is None && m@ == media_of(path@, document@),
            Err(e) => document_fault(document@) == Some(e@),
        },
{
    let mut warnings: Vec<ProbeWarning> = Vec::new();
    proof {
        assert(warnings.deep_view() =~= seq![]);
    }
    let format = match convert_format(&document.format, &mut warnings) {
        Ok(f) => f,
        Err(e) => {
            return Err(e);
        },
    };
    let streams = match convert_streams(&document.streams, &mut warnings) {
        Ok(s) => s,
        Err(e) => {
            return Err(e);
        },
    };
    let chapters = match convert_chapters(&document.chapters, &mut warnings) {
        Ok(c) => c,
        Err(e) => {
            return Err(e);
        },
    };
    proof {
        lemma_all_streams_noted(document@.streams);
        lemma_all_chapters_noted(document@.chapters);
        assert(warnings.deep_view() =~= format_warnings(document@.format->0) + streams_warnings(
            document@.streams,
        ) + chapters_warnings(document@.chapters));
        assert(streams.deep_view().len() == streams@.len());
        media::lemma_first_repeat(streams.deep_view());
    }
    match MediaInfo::new(path, format, streams, chapters) {
        Ok(m) => Ok(m.with_warnings(warnings)),
        Err(e) => Err(ProbeError::Model(e)),
    }
}

/// The most bytes of a document that are read.
pub const MAX_PROBE_STDOUT_BYTES: usize = 67_108_864;

/// The most bytes of the diagnostics of a probe that are kept.
pub const MAX_PROBE_STDERR_BYTES: usize = 65_536;

/// The last bytes, at most so many.
pub open spec fn last_bytes(bytes: Seq<u8>, limit: nat) -> Seq<u8> {
    if bytes.len() > limit {
        bytes.skip(bytes.len() - limit)
    } else {
        bytes
    }
}

/// Adds a chunk to the end of diagnostics of which only the last bytes are kept.
pub fn append_tail(tail: &mut Vec<u8>, chunk: &Vec<u8>, limit: usize)
    ensures
        final(tail)@ == last_bytes(old(tail)@ + chunk@, limit as nat),
{
    let ghost before = tail@;
    let keep: usize = if chunk.len() >= limit {
        0
    } else if limit - chunk.len() < tail.len() {
        limit - chunk.len()
    } else {
        tail.len()
    };
    let from: usize = if chunk.len() > limit {
        chunk.len() - limit
    } else {
        0
    };
    let mut out = path::slice_bytes(tail, tail.len() - keep, tail.len());
    let mut i: usize = from;
    while i < chunk.len()
        invariant
            from <= i <= chunk@.len(),
            keep <= before.len(),
            out@ == before.skip(before.len() - keep) + chunk@.subrange(from as int, i as int),
        decreases chunk@.len() - i,
    {
        out.push(chunk[i]);
        i = i + 1;
        proof {
            assert(chunk@.subrange(from as int, i as int) =~= chunk@.subrange(
                from as int,
                i - 1,
            ).push(chunk@[i - 1]));
            assert(out@ =~= before.skip(before.len() - keep) + chunk@.subrange(
                from as int,
                i as int,
            ));
        }
    }
    proof {
        assert(out@ =~= last_bytes(before + chunk@, limit as nat));
    }
    *tail = out;
}

/// Keeping the last bytes of each step keeps the last bytes of all.
pub proof fn law_tail_of_the_whole(a: Seq<u8>, b: Seq<u8>, limit: nat)
    ensures
        last_bytes(last_bytes(a, limit) + b, limit) == last_bytes(a + b, limit),
        last_bytes(a, limit).len() <= limit,
{
    assert(last_bytes(last_bytes(a, limit) + b, limit) =~= last_bytes(a + b, limit));
}

/// Adds a chunk to a document that may not exceed a limit.
pub fn append_bounded(output: &mut Vec<u8>, chunk: &Vec<u8>, limit: usize) -> (r: Result<
    (),
    ProbeError,
>)
    ensures
        match r {
            Ok(_) => old(output)@.len() + chunk@.len() <= limit && final(output)@ == old(output)@
                + chunk@,
            Err(e) => old(output)@.len() + chunk@.len() > limit && *final(output) == *old(output)
                && e@ == (ProbeErrorView::OutputTooLarge { limit_bytes: limit }),
        },
{
    if chunk.len() > limit || output.len() > limit - chunk.len() {
        return Err(ProbeError::OutputTooLarge { limit_bytes: limit });
    }
    let ghost before = output@;
    let mut i: usize = 0;
    while i < chunk.len()
        invariant
            i <= chunk@.len(),
            output@ == before + chunk@.take(i as int),
        decreases chunk@.len() - i,
    {
        output.push(chunk[i]);
        i = i + 1;
        proof {
            assert(output@ =~= before + chunk@.take(i as int));
        }
    }
    proof {
        assert(chunk@.take(i as int) =~= chunk@);
    }
    Ok(())
}

} // verus!
