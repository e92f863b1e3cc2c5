//! What is told to machines.
use vstd::prelude::*;
use vstd::utf8::*;

use crate::backend::{
    BackendCapabilities, BackendCapabilitiesView, BackendToolInfo, BackendToolInfoView,
    BackendToolRole, CapabilityCheck, CapabilityCheckView, ProgressSnapshot,
};
use crate::media::{MediaInfo, MediaInfoView};
use crate::model;
use crate::path::FilePath;
use crate::plan::{JobAction, JobPlan, JobPlanView, OperationView, OutputStreamPlan};
use crate::stream::{StreamInfo, StreamInfoView};
use crate::text;

verus! {

/// The digit of a number below sixteen.
pub open spec fn hex_digit(n: int) -> char {
    if n < 10 {
        ('0' as int + n) as char
    } else {
        ('a' as int + n - 10) as char
    }
}

/// Bytes as hexadecimal digits, two for each byte.
pub open spec fn hex(bytes: Seq<u8>) -> Seq<char> {
    Seq::new(
        2 * bytes.len(),
        |i: int|
            if i % 2 == 0 {
                hex_digit(bytes[i / 2] as int / 16)
            } else {
                hex_digit(bytes[i / 2] as int % 16)
            },
    )
}

/// The digits tell the bytes.
pub proof fn law_hex_is_lossless(a: Seq<u8>, b: Seq<u8>)
    requires
        hex(a) == hex(b),
    ensures
        a == b,
{
    assert(hex(a).len() == 2 * a.len());
    assert(hex(b).len() == 2 * b.len());
    assert forall|i: int| 0 <= i < a.len() implies a[i] == b[i] by {
        assert(hex(a)[2 * i] == hex(b)[2 * i]);
        assert(hex(a)[2 * i + 1] == hex(b)[2 * i + 1]);
        lemma_hex_at(a, i);
        lemma_hex_at(b, i);
        lemma_digits_differ(a[i] as int / 16, b[i] as int / 16);
        lemma_digits_differ(a[i] as int % 16, b[i] as int % 16);
    }
    assert(a =~= b);
}

proof fn lemma_hex_at(bytes: Seq<u8>, i: int)
    requires
        0 <= i < bytes.len(),
    ensures
        hex(bytes)[2 * i] == hex_digit(bytes[i] as int / 16),
        hex(bytes)[2 * i + 1] == hex_digit(bytes[i] as int % 16),
{
    assert((2 * i) / 2 == i);
    assert((2 * i + 1) / 2 == i);
    assert((2 * i) % 2 == 0);
    assert((2 * i + 1) % 2 == 1);
}

proof fn lemma_digits_differ(m: int, n: int)
    requires
        0 <= m < 16,
        0 <= n < 16,
        hex_digit(m) == hex_digit(n),
    ensures
        m == n,
{
}

fn show_digit(n: u8) -> (r: char)
    requires
        n < 16,
    ensures
        r == hex_digit(n as int),
{
    if n < 10 {
        (48u8 + n) as char
    } else {
        (87u8 + n) as char
    }
}

/// Writes bytes as hexadecimal digits.
pub fn encode_hex(bytes: &Vec<u8>) -> (r: String)
    ensures
        r@ == hex(bytes@),
{
    let mut out = String::new();
    let mut i: usize = 0;
    proof {
        assert(out@ =~= hex(bytes@.take(0)));
    }
    while i < bytes.len()
        invariant
            i <= bytes@.len(),
            out@ == hex(bytes@.take(i as int)),
        decreases bytes@.len() - i,
    {
        let byte: u8 = bytes[i];
        out.push(show_digit(byte / 16));
        out.push(show_digit(byte % 16));
        proof {
            let more = hex(bytes@.take(i + 1));
            assert((2 * i) / 2 == i && (2 * i + 1) / 2 == i);
            assert forall|k: int| 0 <= k < more.len() implies more[k] == out@[k] by {
                if k < 2 * i {
                    assert(bytes@.take(i + 1)[k / 2] == bytes@.take(i as int)[k / 2]);
                }
            }
            assert(out@ =~= more);
        }
        i = i + 1;
    }
    proof {
        assert(bytes@.take(i as int) =~= bytes@);
    }
    out
}

/// A path for machines: its bytes, and a text to show.
#[derive(Debug)]
pub struct PathDto {
    /// A text to show.
    pub display: String,
    /// How the bytes are to be read.
    pub native_encoding: String,
    /// The bytes as hexadecimal digits.
    pub native_hex: String,
}

/// A path for machines: its bytes, and a text to show.
pub struct PathDtoView {
    /// A text to show.
    pub display: Seq<char>,
    /// How the bytes are to be read.
    pub native_encoding: Seq<char>,
    /// The bytes as hexadecimal digits.
    pub native_hex: Seq<char>,
}

impl View for PathDto {
    type V = PathDtoView;

    open spec fn view(&self) -> PathDtoView {
        PathDtoView {
            display: self.display@,
            native_encoding: self.native_encoding@,
            native_hex: self.native_hex@,
        }
    }
}

impl DeepView for PathDto {
    type V = PathDtoView;

    open spec fn deep_view(&self) -> PathDtoView {
        self@
    }
}

impl Clone for PathDto {
    fn clone(&self) -> (r: Self)
        ensures
            r@ == self@,
    {
        let r = PathDto {
            display: self.display.clone(),
            native_encoding: self.native_encoding.clone(),
            native_hex: self.native_hex.clone(),
        };
        r
    }
}

/// What is told of a path.
pub open spec fn path_told(path: Seq<u8>) -> PathDtoView {
    PathDtoView {
        display: text::lossy(path),
        native_encoding: if valid_utf8(path) {
            "utf-8"@
        } else {
            "unix-bytes"@
        },
        native_hex: hex(path),
    }
}

/// The bytes of 16-bit units, the lower byte of each first.
pub open spec fn unit_bytes(units: Seq<u16>) -> Seq<u8>
    decreases units.len(),
{
    if units.len() == 0 {
        seq![]
    } else {
        unit_bytes(units.drop_last()) + seq![
            (units.last() % 256) as u8,
            (units.last() / 256) as u8,
        ]
    }
}

fn to_unit_bytes(units: &Vec<u16>) -> (r: Vec<u8>)
    ensures
        r@ == unit_bytes(units@),
{
    let mut out: Vec<u8> = Vec::new();
    let mut i: usize = 0;
    proof {
        assert(units@.take(0) =~= seq![]);
    }
    while i < units.len()
        invariant
            i <= units@.len(),
            out@ == unit_bytes(units@.take(i as int)),
        decreases units@.len() - i,
    {
        let ghost before = out@;
        out.push((units[i] % 256) as u8);
        out.push((units[i] / 256) as u8);
        proof {
            assert(units@.take(i + 1).drop_last() =~= units@.take(i as int));
            assert(out@ =~= before + seq![
                (units@[i as int] % 256) as u8,
                (units@[i as int] / 256) as u8,
            ]);
        }
        i = i + 1;
    }
    proof {
        assert(units@.take(i as int) =~= units@);
    }
    out
}

/// What is told of a path that the platform holds in 16-bit units: the text that they spell, or the
/// units themselves where they spell none, with a text to show.
pub open spec fn wide_told(
    units: Seq<u16>,
    spelt: Result<Seq<char>, Seq<char>>,
) -> PathDtoView {
    match spelt {
        Ok(exact) => PathDtoView {
            display: exact,
            native_encoding: "utf-8"@,
            native_hex: hex(encode_utf8(exact)),
        },
        Err(display) => PathDtoView {
            display,
            native_encoding: "windows-wtf16le"@,
            native_hex: hex(unit_bytes(units)),
        },
    }
}

impl PathDto {
    /// What is told of a path that the platform holds in 16-bit units. `spelt` is the text that the
    /// units spell, or where they spell none a text to show.
    pub fn from_units(units: &Vec<u16>, spelt: Result<&str, &str>) -> (r: Self)
        ensures
            r@ == wide_told(
                units@,
                match spelt {
                    Ok(exact) => Ok(exact@),
                    Err(display) => Err(display@),
                },
            ),
    {
        match spelt {
            Ok(exact) => PathDto {
                display: exact.to_owned(),
                native_encoding: "utf-8".to_owned(),
                native_hex: encode_hex(&exact.as_bytes_vec()),
            },
            Err(display) => PathDto {
                display: display.to_owned(),
                native_encoding: "windows-wtf16le".to_owned(),
                native_hex: encode_hex(&to_unit_bytes(units)),
            },
        }
    }

    /// What is told of a path.
    pub fn new(path: &FilePath) -> (r: Self)
        ensures
            r@ == path_told(path@),
    {
        let native_encoding = if text::decode_strict(path.as_bytes()).is_some() {
            "utf-8"
        } else {
            "unix-bytes"
        };
        PathDto {
            display: path.display(),
            native_encoding: native_encoding.to_owned(),
            native_hex: encode_hex(path.as_bytes()),
        }
    }
}

/// A stream for machines.
#[derive(Debug)]
pub struct StreamDto {
    /// Its index.
    pub index: u32,
    /// Its kind.
    pub kind: String,
    /// Its codec.
    pub codec: String,
    /// Its channels.
    pub channels: Option<u16>,
    /// Its channel layout.
    pub layout: Option<String>,
    /// Its bitrate in bits per second.
    pub bitrate_bps: Option<u64>,
    /// Its language.
    pub language: Option<String>,
    /// Its title.
    pub title: Option<String>,
    /// Whether it is played by default.
    pub default: bool,
}

/// A stream for machines.
pub struct StreamDtoView {
    /// Its index.
    pub index: u32,
    /// Its kind.
    pub kind: Seq<char>,
    /// Its codec.
    pub codec: Seq<char>,
    /// Its channels.
    pub channels: Option<u16>,
    /// Its channel layout.
    pub layout: Option<Seq<char>>,
    /// Its bitrate in bits per second.
    pub bitrate_bps: Option<u64>,
    /// Its language.
    pub language: Option<Seq<char>>,
    /// Its title.
    pub title: Option<Seq<char>>,
    /// Whether it is played by default.
    pub default: bool,
}

impl View for StreamDto {
    type V = StreamDtoView;

    open spec fn view(&self) -> StreamDtoView {
        StreamDtoView {
            index: self.index,
            kind: self.kind@,
            codec: self.codec@,
            channels: self.channels,
            layout: self.layout.deep_view(),
            bitrate_bps: self.bitrate_bps,
            language: self.language.deep_view(),
            title: self.title.deep_view(),
            default: self.default,
        }
    }
}

impl DeepView for StreamDto {
    type V = StreamDtoView;

    open spec fn deep_view(&self) -> StreamDtoView {
        self@
    }
}

impl Clone for StreamDto {
    fn clone(&self) -> (r: Self)
        ensures
            r@ == self@,
    {
        let r = StreamDto {
            index: self.index,
            kind: self.kind.clone(),
            codec: self.codec.clone(),
            channels: self.channels,
            layout: text::copy_text(&self.layout),
            bitrate_bps: self.bitrate_bps,
            language: text::copy_text(&self.language),
            title: text::copy_text(&self.title),
            default: self.default,
        };
        r
    }
}

/// The kind of a stream.
pub open spec fn kind_of(stream: StreamInfoView) -> Seq<char> {
    match stream {
        StreamInfoView::Video(_) => "video"@,
        StreamInfoView::Audio(_) => "audio"@,
        StreamInfoView::Subtitle(_) => "subtitle"@,
        StreamInfoView::Attachment(_) => "attachment"@,
        StreamInfoView::Data(_) => "data"@,
        StreamInfoView::Unknown(other) => other.kind,
    }
}

/// The kind of a stream.
pub fn stream_kind(stream: &StreamInfo) -> (r: &str)
    ensures
        r@ == kind_of(stream@),
{
    match stream {
        StreamInfo::Video(_) => "video",
        StreamInfo::Audio(_) => "audio",
        StreamInfo::Subtitle(_) => "subtitle",
        StreamInfo::Attachment(_) => "attachment",
        StreamInfo::Data(_) => "data",
        StreamInfo::Unknown(other) => other.kind(),
    }
}

/// What is told of a stream.
pub open spec fn stream_told(stream: StreamInfoView) -> StreamDtoView {
    let common = stream.common();
    StreamDtoView {
        index: common.index,
        kind: kind_of(stream),
        codec: match stream {
            StreamInfoView::Audio(audio) => audio.codec.name(),
            _ => common.codec_name,
        },
        channels: match stream {
            StreamInfoView::Audio(audio) => Some(audio.channels.count),
            _ => None,
        },
        layout: match stream {
            StreamInfoView::Audio(audio) => audio.channels.layout_name,
            _ => None,
        },
        bitrate_bps: common.bitrate,
        language: model::language_of(common.metadata),
        title: model::lookup(common.metadata, "title"@),
        default: common.is_default(),
    }
}

impl StreamDto {
    /// What is told of a stream.
    pub fn from_stream(stream: &StreamInfo) -> (r: Self)
        ensures
            r@ == stream_told(stream@),
    {
        let common = stream.common();
        let (codec, channels, layout) = match stream {
            StreamInfo::Audio(audio) => (
                audio.codec().show(),
                Some(audio.channels().count().get()),
                text::owned(audio.channels().layout_name()),
            ),
            _ => (common.codec_name().to_owned(), None, None),
        };
        StreamDto {
            index: stream.index().get(),
            kind: stream_kind(stream).to_owned(),
            codec,
            channels,
            layout,
            bitrate_bps: match common.bitrate() {
                Some(rate) => Some(rate.get()),
                None => None,
            },
            language: match common.metadata().language() {
                Some(language) => Some(language.as_str().to_owned()),
                None => None,
            },
            title: text::owned(common.metadata().title()),
            default: common.dispositions().is_default(),
        }
    }
}

/// A media file for machines.
#[derive(Debug)]
pub struct ProbeDto {
    /// Where it is.
    pub path: PathDto,
    /// The names of its container format.
    pub formats: Vec<String>,
    /// Its duration in microseconds.
    pub duration_us: Option<u64>,
    /// Its bitrate in bits per second.
    pub bitrate_bps: Option<u64>,
    /// How many chapters it has.
    pub chapters: usize,
    /// How many warnings there are.
    pub warnings: usize,
    /// Its streams.
    pub streams: Vec<StreamDto>,
}

/// A media file for machines.
pub struct ProbeDtoView {
    /// Where it is.
    pub path: PathDtoView,
    /// The names of its container format.
    pub formats: Seq<Seq<char>>,
    /// Its duration in microseconds.
    pub duration_us: Option<u64>,
    /// Its bitrate in bits per second.
    pub bitrate_bps: Option<u64>,
    /// How many chapters it has.
    pub chapters: usize,
    /// How many warnings there are.
    pub warnings: usize,
    /// Its streams.
    pub streams: Seq<StreamDtoView>,
}

impl View for ProbeDto {
    type V = ProbeDtoView;

    open spec fn view(&self) -> ProbeDtoView {
        ProbeDtoView {
            path: self.path@,
            formats: self.formats.deep_view(),
            duration_us: self.duration_us,
            bitrate_bps: self.bitrate_bps,
            chapters: self.chapters,
            warnings: self.warnings,
            streams: self.streams.deep_view(),
        }
    }
}

impl DeepView for ProbeDto {
    type V = ProbeDtoView;

    open spec fn deep_view(&self) -> ProbeDtoView {
        self@
    }
}

impl Clone for ProbeDto {
    fn clone(&self) -> (r: Self)
        ensures
            r@ == self@,
    {
        let r = ProbeDto {
            path: self.path.clone(),
            formats: text::copy_texts(&self.formats),
            duration_us: self.duration_us,
            bitrate_bps: self.bitrate_bps,
            chapters: self.chapters,
            warnings: self.warnings,
            streams: self.streams.clone(),
        };
        proof {
            assert(r.streams.deep_view() =~= self.streams.deep_view());
        }
        r
    }
}

/// What is told of a media file.
pub open spec fn media_told(media: MediaInfoView) -> ProbeDtoView {
    ProbeDtoView {
        path: path_told(media.path),
        formats: media.format.names,
        duration_us: media.format.duration,
        bitrate_bps: media.format.bitrate,
        chapters: media.chapters.len() as usize,
        warnings: media.warnings.len() as usize,
        streams: Seq::new(media.streams.len(), |i: int| stream_told(media.streams[i])),
    }
}

impl ProbeDto {
    /// What is told of a media file.
    pub fn from_media(media: &MediaInfo) -> (r: Self)
        ensures
            r@ == media_told(media@),
    {
        let mut streams: Vec<StreamDto> = Vec::new();
        let ghost told = media_told(media@).streams;
        let ghost all = media@.streams;
        let list = media.streams();
        let mut i: usize = 0;
        while i < list.len()
            invariant
                all == list.deep_view(),
                all.len() == list@.len(),
                told == Seq::new(all.len(), |i: int| stream_told(all[i])),
                i <= list@.len(),
                streams@.len() == i,
                forall|k: int| 0 <= k < i ==> (#[trigger] streams@[k])@ == told[k],
            decreases list@.len() - i,
        {
            proof {
                assert(all[i as int] == list@[i as int]@);
            }
            streams.push(StreamDto::from_stream(&list[i]));
            i = i + 1;
        }
        proof {
            assert(streams.deep_view() =~= told);
        }
        ProbeDto {
            path: PathDto::new(media.path()),
            formats: text::copy_texts(media.format().names()),
            duration_us: match media.format().duration() {
                Some(d) => Some(d.get()),
                None => None,
            },
            bitrate_bps: match media.format().bitrate() {
                Some(rate) => Some(rate.get()),
                None => None,
            },
            chapters: media.chapters().len(),
            warnings: media.warnings().len(),
            streams,
        }
    }
}

/// A plan for machines.
#[derive(Debug)]
pub struct PlanDto {
    /// Where the input is.
    pub input: PathDto,
    /// Where the output goes.
    pub output: PathDto,
    /// The kind of work.
    pub action: String,
    /// The duration of the input in microseconds.
    pub duration_us: Option<u64>,
    /// How many streams the output has.
    pub streams: usize,
    /// How many of them are encoded.
    pub encoded_audio_streams: usize,
}

/// A plan for machines.
pub struct PlanDtoView {
    /// Where the input is.
    pub input: PathDtoView,
    /// Where the output goes.
    pub output: PathDtoView,
    /// The kind of work.
    pub action: Seq<char>,
    /// The duration of the input in microseconds.
    pub duration_us: Option<u64>,
    /// How many streams the output has.
    pub streams: usize,
    /// How many of them are encoded.
    pub encoded_audio_streams: usize,
}

impl View for PlanDto {
    type V = PlanDtoView;

    open spec fn view(&self) -> PlanDtoView {
        PlanDtoView {
            input: self.input@,
            output: self.output@,
            action: self.action@,
            duration_us: self.duration_us,
            streams: self.streams,
            encoded_audio_streams: self.encoded_audio_streams,
        }
    }
}

impl DeepView for PlanDto {
    type V = PlanDtoView;

    open spec fn deep_view(&self) -> PlanDtoView {
        self@
    }
}

impl Clone for PlanDto {
    fn clone(&self) -> (r: Self)
        ensures
            r@ == self@,
    {
        let r = PlanDto {
            input: self.input.clone(),
            output: self.output.clone(),
            action: self.action.clone(),
            duration_us: self.duration_us,
            streams: self.streams,
            encoded_audio_streams: self.encoded_audio_streams,
        };
        r
    }
}

/// How many streams are encoded.
pub open spec fn encoded(streams: Seq<OperationView>) -> nat
    decreases streams.len(),
{
    if streams.len() == 0 {
        0
    } else {
        encoded(streams.drop_last()) + if streams.last() is EncodeAudio {
            1nat
        } else {
            0
        }
    }
}

/// How many streams are encoded.
pub fn count_encoded(streams: &Vec<OutputStreamPlan>) -> (r: usize)
    ensures
        r == encoded(streams.deep_view()),
{
    let ghost all = streams.deep_view();
    let mut count: usize = 0;
    let mut i: usize = 0;
    proof {
        assert(all.take(0) =~= seq![]);
    }
    while i < streams.len()
        invariant
            all == streams.deep_view(),
            i <= streams@.len(),
            count <= i,
            count == encoded(all.take(i as int)),
        decreases streams@.len() - i,
    {
        proof {
            assert(all.take(i + 1).drop_last() =~= all.take(i as int));
            assert(all[i as int] == streams@[i as int]@);
        }
        if streams[i].is_encode() {
            count = count + 1;
        }
        i = i + 1;
    }
    proof {
        assert(all.take(i as int) =~= all);
    }
    count
}

/// What is told of a plan.
pub open spec fn plan_told(plan: JobPlanView) -> PlanDtoView {
    PlanDtoView {
        input: path_told(plan.input),
        output: path_told(plan.output),
        action: match plan.action {
            JobAction::Transcode => "transcode"@,
            JobAction::RemuxOnly => "remux"@,
        },
        duration_us: plan.duration,
        streams: plan.streams.len() as usize,
        encoded_audio_streams: encoded(plan.streams) as usize,
    }
}

impl PlanDto {
    /// What is told of a plan.
    pub fn from_plan(plan: &JobPlan) -> (r: Self)
        ensures
            r@ == plan_told(plan@),
    {
        let action = match plan.action() {
            JobAction::Transcode => "transcode",
            JobAction::RemuxOnly => "remux",
        };
        PlanDto {
            input: PathDto::new(plan.input()),
            output: PathDto::new(plan.output()),
            action: action.to_owned(),
            duration_us: match plan.duration() {
                Some(d) => Some(d.get()),
                None => None,
            },
            streams: plan.streams().len(),
            encoded_audio_streams: count_encoded(plan.streams()),
        }
    }
}

/// A tool for machines.
#[derive(Debug)]
pub struct ToolDto {
    /// What it is for.
    pub role: String,
    /// Where it is.
    pub path: PathDto,
    /// Its version.
    pub version: Option<String>,
}

/// A tool for machines.
pub struct ToolDtoView {
    /// What it is for.
    pub role: Seq<char>,
    /// Where it is.
    pub path: PathDtoView,
    /// Its version.
    pub version: Option<Seq<char>>,
}

impl View for ToolDto {
    type V = ToolDtoView;

    open spec fn view(&self) -> ToolDtoView {
        ToolDtoView {
            role: self.role@,
            path: self.path@,
            version: self.version.deep_view(),
        }
    }
}

impl DeepView for ToolDto {
    type V = ToolDtoView;

    open spec fn deep_view(&self) -> ToolDtoView {
        self@
    }
}

impl Clone for ToolDto {
    fn clone(&self) -> (r: Self)
        ensures
            r@ == self@,
    {
        let r = ToolDto {
            role: self.role.clone(),
            path: self.path.clone(),
            version: text::copy_text(&self.version),
        };
        r
    }
}

/// Whether something needed is there, for machines.
#[derive(Debug)]
pub struct CheckDto {
    /// What kind of thing it is.
    pub kind: String,
    /// Its name.
    pub name: String,
    /// Whether it is there.
    pub available: bool,
    /// What else there is to say.
    pub detail: Option<String>,
}

/// Whether something needed is there, for machines.
pub struct CheckDtoView {
    /// What kind of thing it is.
    pub kind: Seq<char>,
    /// Its name.
    pub name: Seq<char>,
    /// Whether it is there.
    pub available: bool,
    /// What else there is to say.
    pub detail: Option<Seq<char>>,
}

impl View for CheckDto {
    type V = CheckDtoView;

    open spec fn view(&self) -> CheckDtoView {
        CheckDtoView {
            kind: self.kind@,
            name: self.name@,
            available: self.available,
            detail: self.detail.deep_view(),
        }
    }
}

impl DeepView for CheckDto {
    type V = CheckDtoView;

    open spec fn deep_view(&self) -> CheckDtoView {
        self@
    }
}

impl Clone for CheckDto {
    fn clone(&self) -> (r: Self)
        ensures
            r@ == self@,
    {
        let r = CheckDto {
            kind: self.kind.clone(),
            name: self.name.clone(),
            available: self.available,
            detail: text::copy_text(&self.detail),
        };
        r
    }
}

/// What a backend can do, for machines.
#[derive(Debug)]
pub struct DoctorDto {
    /// Its name.
    pub backend: String,
    /// Whether all that is needed is there.
    pub healthy: bool,
    /// Its tools.
    pub tools: Vec<ToolDto>,
    /// What was looked for.
    pub checks: Vec<CheckDto>,
    /// What there is to know.
    pub warnings: Vec<String>,
}

/// What a backend can do, for machines.
pub struct DoctorDtoView {
    /// Its name.
    pub backend: Seq<char>,
    /// Whether all that is needed is there.
    pub healthy: bool,
    /// Its tools.
    pub tools: Seq<ToolDtoView>,
    /// What was looked for.
    pub checks: Seq<CheckDtoView>,
    /// What there is to know.
    pub warnings: Seq<Seq<char>>,
}

impl View for DoctorDto {
    type V = DoctorDtoView;

    open spec fn view(&self) -> DoctorDtoView {
        DoctorDtoView {
            backend: self.backend@,
            healthy: self.healthy,
            tools: self.tools.deep_view(),
            checks: self.checks.deep_view(),
            warnings: self.warnings.deep_view(),
        }
    }
}

impl DeepView for DoctorDto {
    type V = DoctorDtoView;

    open spec fn deep_view(&self) -> DoctorDtoView {
        self@
    }
}

impl Clone for DoctorDto {
    fn clone(&self) -> (r: Self)
        ensures
            r@ == self@,
    {
        let r = DoctorDto {
            backend: self.backend.clone(),
            healthy: self.healthy,
            tools: self.tools.clone(),
            checks: self.checks.clone(),
            warnings: text::copy_texts(&self.warnings),
        };
        proof {
            assert(r.tools.deep_view() =~= self.tools.deep_view());
            assert(r.checks.deep_view() =~= self.checks.deep_view());
        }
        r
    }
}

/// What is told of a tool.
pub open spec fn tool_told(tool: BackendToolInfoView) -> ToolDtoView {
    ToolDtoView {
        role: match tool.role {
            BackendToolRole::Ffmpeg => "ffmpeg"@,
            BackendToolRole::Ffprobe => "ffprobe"@,
        },
        path: path_told(tool.path),
        version: tool.version,
    }
}

/// What is told of something that was looked for.
pub open spec fn check_told(check: CapabilityCheckView) -> CheckDtoView {
    CheckDtoView {
        kind: check.capability.kind(),
        name: check.capability.name(),
        available: check.available,
        detail: check.detail,
    }
}

/// What is told of a backend.
pub open spec fn doctor_told(report: BackendCapabilitiesView) -> DoctorDtoView {
    DoctorDtoView {
        backend: report.backend_name,
        healthy: report.all_available(),
        tools: Seq::new(report.tools.len(), |i: int| tool_told(report.tools[i])),
        checks: Seq::new(report.checks.len(), |i: int| check_told(report.checks[i])),
        warnings: report.warnings,
    }
}

fn tell_tools(tools: &Vec<BackendToolInfo>) -> (r: Vec<ToolDto>)
    ensures
        r.deep_view() == Seq::new(
            tools.deep_view().len(),
            |i: int| tool_told(tools.deep_view()[i]),
        ),
{
    let ghost all = tools.deep_view();
    let mut out: Vec<ToolDto> = Vec::new();
    let mut i: usize = 0;
    while i < tools.len()
        invariant
            all == tools.deep_view(),
            i <= tools@.len(),
            out@.len() == i,
            forall|k: int| 0 <= k < i ==> (#[trigger] out@[k])@ == tool_told(all[k]),
        decreases tools@.len() - i,
    {
        proof {
            assert(all[i as int] == tools@[i as int]@);
        }
        let role = match tools[i].role() {
            BackendToolRole::Ffmpeg => "ffmpeg",
            BackendToolRole::Ffprobe => "ffprobe",
        };
        out.push(
            ToolDto {
                role: role.to_owned(),
                path: PathDto::new(tools[i].path()),
                version: text::owned(tools[i].version()),
            },
        );
        i = i + 1;
    }
    proof {
        assert(out.deep_view() =~= Seq::new(all.len(), |i: int| tool_told(all[i])));
    }
    out
}

fn tell_checks(checks: &Vec<CapabilityCheck>) -> (r: Vec<CheckDto>)
    ensures
        r.deep_view() == Seq::new(
            checks.deep_view().len(),
            |i: int| check_told(checks.deep_view()[i]),
        ),
{
    let ghost all = checks.deep_view();
    let mut out: Vec<CheckDto> = Vec::new();
    let mut i: usize = 0;
    while i < checks.len()
        invariant
            all == checks.deep_view(),
            i <= checks@.len(),
            out@.len() == i,
            forall|k: int| 0 <= k < i ==> (#[trigger] out@[k])@ == check_told(all[k]),
        decreases checks@.len() - i,
    {
        proof {
            assert(all[i as int] == checks@[i as int]@);
        }
        let check = &checks[i];
        out.push(
            CheckDto {
                kind: check.capability().kind().to_owned(),
                name: check.capability().name().to_owned(),
                available: check.available(),
                detail: text::owned(check.detail()),
            },
        );
        i = i + 1;
    }
    proof {
        assert(out.deep_view() =~= Seq::new(all.len(), |i: int| check_told(all[i])));
    }
    out
}

impl DoctorDto {
    /// What is told of a backend.
    pub fn from_report(report: &BackendCapabilities) -> (r: Self)
        ensures
            r@ == doctor_told(report@),
    {
        DoctorDto {
            backend: report.backend_name().to_owned(),
            healthy: report.all_available(),
            tools: tell_tools(report.tools()),
            checks: tell_checks(report.checks()),
            warnings: text::copy_texts(report.warnings()),
        }
    }
}

/// A progress record for machines.
#[derive(Debug, Clone, Copy, PartialEq, Eq)]
pub struct ProgressDto {
    /// Position in the output in microseconds.
    pub out_time_us: Option<i64>,
    /// Bytes that were written.
    pub total_size_bytes: Option<u64>,
    /// Speed in thousandths of real time.
    pub speed_milli: Option<u32>,
    /// Frames that were handled.
    pub frame: Option<u64>,
    /// Frames that were dropped.
    pub dropped_frames: Option<u64>,
}

impl ProgressDto {
    /// What is told of a progress record.
    pub fn from_progress(value: &ProgressSnapshot) -> (r: Self)
        ensures
            r.out_time_us == value.out_time_us,
            r.total_size_bytes == value.total_size_bytes,
            r.speed_milli == value.speed_milli,
            r.frame == value.frame,
            r.dropped_frames == value.dropped_frames,
    {
        ProgressDto {
            out_time_us: value.out_time_us,
            total_size_bytes: value.total_size_bytes,
            speed_milli: value.speed_milli,
            frame: value.frame,
            dropped_frames: value.dropped_frames,
        }
    }
}

} // verus!
