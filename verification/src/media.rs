//! Media files: container format, chapters and streams together.
use vstd::prelude::*;

use crate::model::{
    Bitrate, DurationMicros, Metadata, MetadataView, ModelError, ModelErrorView, StreamIndex,
    TimeBase, TimeBaseView,
};
use crate::path::FilePath;
use crate::stream::{AudioStream, AudioStreamView, StreamInfo, StreamInfoView};
use crate::text;

verus! {

/// The format names without surrounding white space, in lowercase, without blank ones.
pub open spec fn format_names(names: Seq<Seq<char>>) -> Seq<Seq<char>>
    decreases names.len(),
{
    if names.len() == 0 {
        seq![]
    } else {
        let rest = format_names(names.drop_last());
        let name = text::lower(text::trim(names.last()));
        if name.len() == 0 {
            rest
        } else {
            rest.push(name)
        }
    }
}

/// Container format of a media file.
#[derive(Debug, PartialEq, Eq)]
pub struct FormatInfo {
    names: Vec<String>,
    duration: Option<DurationMicros>,
    start_time: Option<i64>,
    bitrate: Option<Bitrate>,
    metadata: Metadata,
}

/// Container format of a media file.
pub struct FormatInfoView {
    /// Names of the format in lowercase.
    pub names: Seq<Seq<char>>,
    /// Duration in microseconds.
    pub duration: Option<u64>,
    /// Start in microseconds.
    pub start_time: Option<i64>,
    /// Bits per second.
    pub bitrate: Option<u64>,
    /// Global metadata.
    pub metadata: MetadataView,
}

impl FormatInfoView {
    /// Whether Matroska is among the names.
    pub open spec fn is_matroska(self) -> bool {
        self.names.contains("matroska"@)
    }
}

impl View for FormatInfo {
    type V = FormatInfoView;

    closed spec fn view(&self) -> FormatInfoView {
        FormatInfoView {
            names: self.names.deep_view(),
            duration: self.duration.deep_view(),
            start_time: self.start_time,
            bitrate: self.bitrate.deep_view(),
            metadata: self.metadata@,
        }
    }
}

impl Clone for FormatInfo {
    fn clone(&self) -> (r: Self)
        ensures
            r@ == self@,
    {
        FormatInfo {
            names: text::copy_texts(&self.names),
            duration: self.duration,
            start_time: self.start_time,
            bitrate: self.bitrate,
            metadata: self.metadata.clone(),
        }
    }
}

impl FormatInfo {
    /// A format of the given names; it is rejected where no name is left after trimming.
    pub fn new(names: Vec<String>) -> (r: Result<Self, ModelError>)
        ensures
            match r {
                Ok(f) => format_names(names.deep_view()).len() > 0 && f@ == (FormatInfoView {
                    names: format_names(names.deep_view()),
                    duration: None,
                    start_time: None,
                    bitrate: None,
                    metadata: Map::empty(),
                }),
                Err(e) => format_names(names.deep_view()).len() == 0 && e@
                    == ModelErrorView::MissingFormatName,
            },
    {
        let mut kept: Vec<String> = Vec::new();
        let mut i: usize = 0;
        while i < names.len()
            invariant
                i <= names@.len(),
                kept.deep_view() == format_names(names.deep_view().take(i as int)),
            decreases names@.len() - i,
        {
            let ghost before = kept;
            proof {
                assert(names.deep_view().take(i + 1).drop_last() == names.deep_view().take(
                    i as int,
                ));
                assert(names.deep_view().take(i + 1).last() == names@[i as int]@);
            }
            let name = text::to_lower(text::trimmed(names[i].as_str()).as_str());
            if !name.as_str().is_empty() {
                kept.push(name);
                proof {
                    assert(kept.deep_view() == before.deep_view().push(name@));
                }
            }
            i = i + 1;
        }
        proof {
            assert(names.deep_view().take(i as int) == names.deep_view());
            assert(kept.deep_view().len() == kept@.len());
        }
        if kept.is_empty() {
            return Err(ModelError::MissingFormatName);
        }
        Ok(
            FormatInfo {
                names: kept,
                duration: None,
                start_time: None,
                bitrate: None,
                metadata: Metadata::default(),
            },
        )
    }

    /// The same format with this duration.
    pub fn with_duration(self, duration: Option<DurationMicros>) -> (r: Self)
        ensures
            r@ == (FormatInfoView { duration: duration.deep_view(), ..self@ }),
    {
        FormatInfo { duration, ..self }
    }

    /// The same format with this start.
    pub fn with_start_time(self, start_time: Option<i64>) -> (r: Self)
        ensures
            r@ == (FormatInfoView { start_time, ..self@ }),
    {
        FormatInfo { start_time, ..self }
    }

    /// The same format with this bitrate.
    pub fn with_bitrate(self, bitrate: Option<Bitrate>) -> (r: Self)
        ensures
            r@ == (FormatInfoView { bitrate: bitrate.deep_view(), ..self@ }),
    {
        FormatInfo { bitrate, ..self }
    }

    /// The same format with this metadata.
    pub fn with_metadata(self, metadata: Metadata) -> (r: Self)
        ensures
            r@ == (FormatInfoView { metadata: metadata@, ..self@ }),
    {
        FormatInfo { metadata, ..self }
    }

    /// The names of the format in lowercase.
    pub fn names(&self) -> (r: &Vec<String>)
        ensures
            r.deep_view() == self@.names,
    {
        &self.names
    }

    /// Whether Matroska is among the names.
    pub fn is_matroska(&self) -> (r: bool)
        ensures
            r == self@.is_matroska(),
    {
        let mut i: usize = 0;
        while i < self.names.len()
            invariant
                i <= self.names@.len(),
                forall|j: int| 0 <= j < i ==> self@.names[j] != "matroska"@,
            decreases self.names@.len() - i,
        {
            proof {
                assert(self@.names[i as int] == self.names@[i as int]@);
            }
            if text::same(self.names[i].as_str(), "matroska") {
                return true;
            }
            i = i + 1;
        }
        false
    }

    /// The duration.
    pub fn duration(&self) -> (r: Option<DurationMicros>)
        ensures
            r.deep_view() == self@.duration,
    {
        self.duration
    }

    /// The start in microseconds.
    pub fn start_time(&self) -> (r: Option<i64>)
        ensures
            r == self@.start_time,
    {
        self.start_time
    }

    /// The bitrate.
    pub fn bitrate(&self) -> (r: Option<Bitrate>)
        ensures
            r.deep_view() == self@.bitrate,
    {
        self.bitrate
    }

    /// The global metadata.
    pub fn metadata(&self) -> (r: &Metadata)
        ensures
            r@ == self@.metadata,
    {
        &self.metadata
    }
}

/// A chapter of a media file.
#[derive(Debug, PartialEq, Eq)]
pub struct Chapter {
    id: i64,
    time_base: TimeBase,
    start: i64,
    end: i64,
    metadata: Metadata,
}

/// A chapter of a media file.
pub struct ChapterView {
    /// Identifier.
    pub id: i64,
    /// Length of one tick.
    pub time_base: TimeBaseView,
    /// First tick.
    pub start: i64,
    /// Tick after the last.
    pub end: i64,
    /// Chapter metadata.
    pub metadata: MetadataView,
}

impl View for Chapter {
    type V = ChapterView;

    closed spec fn view(&self) -> ChapterView {
        ChapterView {
            id: self.id,
            time_base: self.time_base@,
            start: self.start,
            end: self.end,
            metadata: self.metadata@,
        }
    }
}

impl DeepView for Chapter {
    type V = ChapterView;

    open spec fn deep_view(&self) -> ChapterView {
        self@
    }
}

impl Clone for Chapter {
    fn clone(&self) -> (r: Self)
        ensures
            r@ == self@,
    {
        proof {
            use_type_invariant(self);
        }
        Chapter {
            id: self.id,
            time_base: self.time_base,
            start: self.start,
            end: self.end,
            metadata: self.metadata.clone(),
        }
    }
}

impl Chapter {
    #[verifier::type_invariant]
    pub open spec fn forward(self) -> bool {
        self@.start <= self@.end
    }

    /// A chapter; one that ends before it starts is rejected.
    pub fn new(id: i64, time_base: TimeBase, start: i64, end: i64, metadata: Metadata) -> (r: Result<
        Self,
        ModelError,
    >)
        ensures
            match r {
                Ok(c) => start <= end && c@ == (ChapterView {
                    id,
                    time_base: time_base@,
                    start,
                    end,
                    metadata: metadata@,
                }),
                Err(e) => end < start && e@ == (ModelErrorView::InvalidChapterRange { id }),
            },
    {
        if end < start {
            return Err(ModelError::InvalidChapterRange { id });
        }
        Ok(Chapter { id, time_base, start, end, metadata })
    }

    /// The identifier.
    pub fn id(&self) -> (r: i64)
        ensures
            r == self@.id,
    {
        self.id
    }

    /// The time base of start and end.
    pub fn time_base(&self) -> (r: TimeBase)
        ensures
            r@ == self@.time_base,
    {
        self.time_base
    }

    /// The first tick.
    pub fn start(&self) -> (r: i64)
        ensures
            r == self@.start,
    {
        self.start
    }

    /// The tick after the last.
    pub fn end(&self) -> (r: i64)
        ensures
            r == self@.end,
    {
        self.end
    }

    /// The chapter metadata.
    pub fn metadata(&self) -> (r: &Metadata)
        ensures
            r@ == self@.metadata,
    {
        &self.metadata
    }
}

/// Something unusual that was met while probing.
#[derive(Debug, PartialEq, Eq)]
#[non_exhaustive]
pub enum ProbeWarning {
    /// An optional number could not be used.
    InvalidOptionalNumber {
        /// Field name.
        field: String,
        /// Stream that it belongs to.
        stream: Option<StreamIndex>,
    },
    /// A stream had no codec name.
    MissingCodecName {
        /// The stream.
        stream: StreamIndex,
    },
    /// A metadata value was neither text, number nor truth value.
    UnsupportedMetadataValue {
        /// Metadata key.
        key: String,
        /// Stream that it belongs to.
        stream: Option<StreamIndex>,
    },
}

/// Something unusual that was met while probing.
pub enum ProbeWarningView {
    /// An optional number could not be used.
    InvalidOptionalNumber { field: Seq<char>, stream: Option<u32> },
    /// A stream had no codec name.
    MissingCodecName { stream: u32 },
    /// A metadata value was neither text, number nor truth value.
    UnsupportedMetadataValue { key: Seq<char>, stream: Option<u32> },
}

impl View for ProbeWarning {
    type V = ProbeWarningView;

    open spec fn view(&self) -> ProbeWarningView {
        match *self {
            ProbeWarning::InvalidOptionalNumber { field, stream } =>
                ProbeWarningView::InvalidOptionalNumber {
                field: field@,
                stream: stream.deep_view(),
            },
            ProbeWarning::MissingCodecName { stream } => ProbeWarningView::MissingCodecName {
                stream: stream@,
            },
            ProbeWarning::UnsupportedMetadataValue { key, stream } =>
                ProbeWarningView::UnsupportedMetadataValue { key: key@, stream: stream.deep_view() },
        }
    }
}

impl DeepView for ProbeWarning {
    type V = ProbeWarningView;

    open spec fn deep_view(&self) -> ProbeWarningView {
        self@
    }
}

impl Clone for ProbeWarning {
    fn clone(&self) -> (r: Self)
        ensures
            r@ == self@,
    {
        match self {
            ProbeWarning::InvalidOptionalNumber { field, stream } =>
                ProbeWarning::InvalidOptionalNumber { field: field.clone(), stream: *stream },
            ProbeWarning::MissingCodecName { stream } => ProbeWarning::MissingCodecName {
                stream: *stream,
            },
            ProbeWarning::UnsupportedMetadataValue { key, stream } =>
                ProbeWarning::UnsupportedMetadataValue { key: key.clone(), stream: *stream },
        }
    }
}

/// Whether no two streams have the same index.
pub open spec fn indices_distinct(streams: Seq<StreamInfoView>) -> bool {
    forall|i: int, j: int|
        0 <= i < j < streams.len() ==> #[trigger] streams[i].index()
            != #[trigger] streams[j].index()
}

/// The index of the first stream that repeats an earlier stream's index.
pub open spec fn first_repeat(streams: Seq<StreamInfoView>) -> Option<u32>
    decreases streams.len(),
{
    if streams.len() == 0 {
        None
    } else if first_repeat(streams.drop_last()) is Some {
        first_repeat(streams.drop_last())
    } else if has_index(streams.drop_last(), streams.last().index()) {
        Some(streams.last().index())
    } else {
        None
    }
}

/// Whether one of the streams has the index.
pub open spec fn has_index(streams: Seq<StreamInfoView>, index: u32) -> bool {
    exists|i: int| 0 <= i < streams.len() && #[trigger] streams[i].index() == index
}

/// The indices are distinct exactly where no stream repeats an earlier index.
pub proof fn lemma_first_repeat(streams: Seq<StreamInfoView>)
    ensures
        first_repeat(streams) is None <==> indices_distinct(streams),
    decreases streams.len(),
{
    if streams.len() > 0 {
        let rest = streams.drop_last();
        let last = streams.len() - 1;
        lemma_first_repeat(rest);
        if first_repeat(streams) is None {
            assert forall|i: int, j: int| 0 <= i < j < streams.len() implies #[trigger] streams[i].index()
                != #[trigger] streams[j].index() by {
                assert(rest[i] == streams[i]);
                if j < last {
                    assert(rest[j] == streams[j]);
                }
            }
        } else if first_repeat(rest) is Some {
            let (i, j) = choose|i: int, j: int|
                0 <= i < j < rest.len() && #[trigger] rest[i].index() == #[trigger] rest[j].index();
            assert(streams[i].index() == streams[j].index());
        } else {
            let i = choose|i: int|
                0 <= i < rest.len() && #[trigger] rest[i].index() == streams.last().index();
            assert(streams[i].index() == streams[last].index());
        }
    }
}

proof fn lemma_repeat_prefix(streams: Seq<StreamInfoView>, i: int)
    requires
        0 <= i <= streams.len(),
        first_repeat(streams.take(i)) is Some,
    ensures
        first_repeat(streams) == first_repeat(streams.take(i)),
    decreases streams.len() - i,
{
    if i < streams.len() {
        assert(streams.take(i + 1).drop_last() == streams.take(i));
        lemma_repeat_prefix(streams, i + 1);
    } else {
        assert(streams.take(i) == streams);
    }
}

/// The audio streams among the streams, in order.
pub open spec fn audio_of(streams: Seq<StreamInfoView>) -> Seq<AudioStreamView>
    decreases streams.len(),
{
    if streams.len() == 0 {
        seq![]
    } else {
        match streams.last() {
            StreamInfoView::Audio(stream) => audio_of(streams.drop_last()).push(stream),
            _ => audio_of(streams.drop_last()),
        }
    }
}

/// A probed media file.
#[derive(Debug, PartialEq, Eq)]
pub struct MediaInfo {
    path: FilePath,
    format: FormatInfo,
    streams: Vec<StreamInfo>,
    chapters: Vec<Chapter>,
    warnings: Vec<ProbeWarning>,
}

/// A probed media file.
pub struct MediaInfoView {
    /// Where the file is.
    pub path: Seq<u8>,
    /// Container format.
    pub format: FormatInfoView,
    /// Streams in container order.
    pub streams: Seq<StreamInfoView>,
    /// Chapters.
    pub chapters: Seq<ChapterView>,
    /// What was unusual.
    pub warnings: Seq<ProbeWarningView>,
}

impl View for MediaInfo {
    type V = MediaInfoView;

    closed spec fn view(&self) -> MediaInfoView {
        MediaInfoView {
            path: self.path@,
            format: self.format@,
            streams: self.streams.deep_view(),
            chapters: self.chapters.deep_view(),
            warnings: self.warnings.deep_view(),
        }
    }
}

/// A copy of the chapters.
pub fn copy_chapters(v: &Vec<Chapter>) -> (r: Vec<Chapter>)
    ensures
        r.deep_view() == v.deep_view(),
{
    let r = v.clone();
    proof {
        assert(r.deep_view() =~= v.deep_view());
    }
    r
}

impl DeepView for MediaInfo {
    type V = MediaInfoView;

    open spec fn deep_view(&self) -> MediaInfoView {
        self@
    }
}

impl Clone for MediaInfo {
    fn clone(&self) -> (r: Self)
        ensures
            r@ == self@,
    {
        proof {
            use_type_invariant(self);
        }
        let streams = self.streams.clone();
        let warnings = self.warnings.clone();
        proof {
            assert(streams.deep_view() =~= self.streams.deep_view());
            assert(warnings.deep_view() =~= self.warnings.deep_view());
        }
        MediaInfo {
            path: self.path.clone(),
            format: self.format.clone(),
            streams,
            chapters: copy_chapters(&self.chapters),
            warnings,
        }
    }
}

impl MediaInfo {
    #[verifier::type_invariant]
    pub open spec fn consistent(self) -> bool {
        self@.streams.len() > 0 && indices_distinct(self@.streams)
    }

    /// A media file; it is rejected without streams, and where a stream repeats an index.
    pub fn new(
        path: FilePath,
        format: FormatInfo,
        streams: Vec<StreamInfo>,
        chapters: Vec<Chapter>,
    ) -> (r: Result<Self, ModelError>)
        ensures
            match r {
                Ok(m) => streams@.len() > 0 && indices_distinct(streams.deep_view()) && m@ == (
                MediaInfoView {
                    path: path@,
                    format: format@,
                    streams: streams.deep_view(),
                    chapters: chapters.deep_view(),
                    warnings: seq![],
                }),
                Err(e) => if streams@.len() == 0 {
                    e@ == ModelErrorView::NoStreams
                } else {
                    first_repeat(streams.deep_view()) matches Some(index) && e@ == (
                    ModelErrorView::DuplicateStreamIndex { index })
                },
            },
    {
        if streams.is_empty() {
            return Err(ModelError::NoStreams);
        }
        let ghost all = streams.deep_view();
        let mut j: usize = 0;
        while j < streams.len()
            invariant
                all == streams.deep_view(),
                streams@.len() > 0,
                j <= streams@.len(),
                first_repeat(all.take(j as int)) is None,
            decreases streams@.len() - j,
        {
            let index = streams[j].index();
            let mut i: usize = 0;
            while i < j
                invariant
                    all == streams.deep_view(),
                    streams@.len() > 0,
                    i <= j < streams@.len(),
                    index@ == all[j as int].index(),
                    first_repeat(all.take(j as int)) is None,
                    forall|k: int| 0 <= k < i ==> #[trigger] all[k].index() != index@,
                decreases j - i,
            {
                proof {
                    assert(all[i as int] == streams@[i as int]@);
                }
                if streams[i].index().get() == index.get() {
                    proof {
                        let prefix = all.take(j + 1);
                        assert(prefix.drop_last() == all.take(j as int));
                        assert(prefix.drop_last()[i as int].index() == index@);
                        assert(has_index(prefix.drop_last(), prefix.last().index()));
                        lemma_repeat_prefix(all, j + 1);
                    }
                    return Err(ModelError::DuplicateStreamIndex { index });
                }
                i = i + 1;
            }
            proof {
                let prefix = all.take(j + 1);
                assert(prefix.drop_last() == all.take(j as int));
                assert(!has_index(prefix.drop_last(), prefix.last().index()));
            }
            j = j + 1;
        }
        proof {
            assert(all.take(j as int) == all);
            lemma_first_repeat(all);
        }
        let warnings: Vec<ProbeWarning> = Vec::new();
        proof {
            assert(warnings.deep_view() =~= seq![]);
        }
        Ok(MediaInfo { path, format, streams, chapters, warnings })
    }

    /// The same file with these warnings.
    pub fn with_warnings(self, warnings: Vec<ProbeWarning>) -> (r: Self)
        ensures
            r@ == (MediaInfoView { warnings: warnings.deep_view(), ..self@ }),
    {
        proof {
            use_type_invariant(&self);
        }
        MediaInfo { warnings, ..self }
    }

    /// Where the file is.
    pub fn path(&self) -> (r: &FilePath)
        ensures
            r@ == self@.path,
    {
        &self.path
    }

    /// The container format.
    pub fn format(&self) -> (r: &FormatInfo)
        ensures
            r@ == self@.format,
    {
        &self.format
    }

    /// The streams in container order.
    pub fn streams(&self) -> (r: &Vec<StreamInfo>)
        ensures
            r.deep_view() == self@.streams,
    {
        &self.streams
    }

    /// The audio streams in container order.
    pub fn audio_streams(&self) -> (r: Vec<&AudioStream>)
        ensures
            r.deep_view() == audio_of(self@.streams),
    {
        let mut out: Vec<&AudioStream> = Vec::new();
        let mut i: usize = 0;
        let ghost all = self@.streams;
        while i < self.streams.len()
            invariant
                all == self.streams.deep_view(),
                i <= self.streams@.len(),
                out.deep_view() == audio_of(all.take(i as int)),
            decreases self.streams@.len() - i,
        {
            let ghost before = out;
            proof {
                assert(all.take(i + 1).drop_last() == all.take(i as int));
                assert(all.take(i + 1).last() == self.streams@[i as int]@);
            }
            match self.streams[i].as_audio() {
                Some(stream) => {
                    out.push(stream);
                    proof {
                        assert(out.deep_view() == before.deep_view().push(stream@));
                    }
                },
                None => {},
            }
            i = i + 1;
        }
        proof {
            assert(all.take(i as int) == all);
        }
        out
    }

    /// The chapters.
    pub fn chapters(&self) -> (r: &Vec<Chapter>)
        ensures
            r.deep_view() == self@.chapters,
    {
        &self.chapters
    }

    /// What was unusual.
    pub fn warnings(&self) -> (r: &Vec<ProbeWarning>)
        ensures
            r.deep_view() == self@.warnings,
    {
        &self.warnings
    }
}

} // verus!
