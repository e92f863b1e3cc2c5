//! What the two tools offer.
use vstd::prelude::*;
use vstd::utf8::*;

use crate::backend::{
    BackendCapabilities, BackendCapabilitiesView, BackendError, BackendErrorView, BackendToolInfo,
    BackendToolInfoView, BackendToolRole, CapabilityCheck, CapabilityCheckView, CapabilityRequest,
    IoError, MediaCapability, MediaCapabilityView,
};
use crate::ffmpeg::error::{ToolError, ToolErrorView};
use crate::ffmpeg::probe::{CliBackendView, FfmpegCliBackend};
use crate::path;
use crate::path::FilePath;
use crate::text;

verus! {

/// The most bytes that a tool may write when it is asked something.
pub const MAX_DIAGNOSTIC_BYTES: usize = 4_194_304;

/// The most characters of a diagnostic that are shown.
pub const DIAGNOSTIC_CHARS: usize = 512;

/// A diagnostic as it is shown.
pub open spec fn bounded_line(value: Seq<char>) -> Seq<char> {
    text::shortened(value, DIAGNOSTIC_CHARS as nat)
}

fn bounded(value: &str) -> (r: String)
    ensures
        r@ == bounded_line(value@),
{
    text::shorten(value, DIAGNOSTIC_CHARS)
}

/// A question to the tools.
#[derive(Debug, Clone, Copy, PartialEq, Eq, Structural)]
pub enum Diagnostic {
    /// Which conversion tool it is.
    FfmpegVersion,
    /// Which inspection tool it is.
    FfprobeVersion,
    /// What can be decoded.
    Decoders,
    /// What can be encoded.
    Encoders,
    /// Which containers there are.
    Formats,
}

impl DeepView for Diagnostic {
    type V = Diagnostic;

    open spec fn deep_view(&self) -> Diagnostic {
        *self
    }
}

impl Diagnostic {
    /// The tool that is asked.
    pub open spec fn role(self) -> BackendToolRole {
        match self {
            Diagnostic::FfprobeVersion => BackendToolRole::Ffprobe,
            _ => BackendToolRole::Ffmpeg,
        }
    }

    /// The arguments that ask it.
    pub open spec fn words(self) -> Seq<Seq<char>> {
        match self {
            Diagnostic::FfmpegVersion => seq!["-version"@],
            Diagnostic::FfprobeVersion => seq!["-version"@],
            Diagnostic::Decoders => seq!["-hide_banner"@, "-decoders"@],
            Diagnostic::Encoders => seq!["-hide_banner"@, "-encoders"@],
            Diagnostic::Formats => seq!["-hide_banner"@, "-formats"@],
        }
    }

    /// The tool that is asked.
    pub fn tool(self) -> (r: BackendToolRole)
        ensures
            r == self.role(),
    {
        match self {
            Diagnostic::FfprobeVersion => BackendToolRole::Ffprobe,
            _ => BackendToolRole::Ffmpeg,
        }
    }

    /// The arguments that ask it.
    pub fn arguments(self) -> (r: Vec<String>)
        ensures
            r.deep_view() == self.words(),
    {
        let mut r: Vec<String> = Vec::new();
        match self {
            Diagnostic::FfmpegVersion => r.push("-version".to_owned()),
            Diagnostic::FfprobeVersion => r.push("-version".to_owned()),
            Diagnostic::Decoders => {
                r.push("-hide_banner".to_owned());
                r.push("-decoders".to_owned());
            },
            Diagnostic::Encoders => {
                r.push("-hide_banner".to_owned());
                r.push("-encoders".to_owned());
            },
            Diagnostic::Formats => {
                r.push("-hide_banner".to_owned());
                r.push("-formats".to_owned());
            },
        }
        proof {
            assert(r.deep_view() =~= self.words());
        }
        r
    }
}

/// What a tool answered, given how it ended and what it wrote.
pub open spec fn answer(
    name: Seq<char>,
    success: bool,
    stdout: Seq<u8>,
    stderr: Seq<u8>,
) -> Result<Seq<char>, ToolErrorView> {
    if stdout.len() + stderr.len() > MAX_DIAGNOSTIC_BYTES {
        Err(ToolErrorView::Protocol { message: "diagnostic output exceeded the 4 MiB limit"@ })
    } else if !success {
        Err(ToolErrorView::DiagnosticFailed { name, stderr: bounded_line(text::lossy(stderr)) })
    } else {
        Ok(text::lossy(stdout))
    }
}

/// What a tool answered, given how it ended and what it wrote.
pub fn diagnostic_answer(
    name: &'static str,
    success: bool,
    stdout: &Vec<u8>,
    stderr: &Vec<u8>,
) -> (r: Result<String, ToolError>)
    ensures
        match r {
            Ok(s) => answer(name@, success, stdout@, stderr@) == Ok::<_, ToolErrorView>(s@),
            Err(e) => answer(name@, success, stdout@, stderr@) == Err::<Seq<char>, _>(e@),
        },
{
    if stdout.len() > MAX_DIAGNOSTIC_BYTES || stderr.len() > MAX_DIAGNOSTIC_BYTES - stdout.len() {
        return Err(
            ToolError::Protocol {
                message: "diagnostic output exceeded the 4 MiB limit".to_owned(),
            },
        );
    }
    if !success {
        return Err(
            ToolError::DiagnosticFailed {
                name,
                stderr: bounded(text::decode_lossy(stderr).as_str()),
            },
        );
    }
    Ok(text::decode_lossy(stdout))
}

/// What a reader gave.
pub fn join_reader(
    name: &'static str,
    result: Result<Result<Vec<u8>, IoError>, String>,
) -> (r: Result<Vec<u8>, ToolError>)
    ensures
        match result {
            Ok(Ok(bytes)) => r == Ok::<Vec<u8>, ToolError>(bytes),
            Ok(Err(source)) => r matches Err(e) && e@ == (ToolErrorView::DiagnosticIo {
                name: name@,
                operation: "read"@,
                source: source@,
            }),
            Err(error) => r matches Err(e) && e@ == (ToolErrorView::Protocol {
                message: "diagnostic reader task failed: "@ + error@,
            }),
        },
{
    match result {
        Ok(Ok(bytes)) => Ok(bytes),
        Ok(Err(source)) => Err(ToolError::DiagnosticIo { name, operation: "read", source }),
        Err(error) => Err(
            ToolError::Protocol {
                message: text::concat2("diagnostic reader task failed: ", error.as_str()),
            },
        ),
    }
}

/// The failure of a question as the backend reports it.
pub fn capability_error(source: ToolError) -> (r: BackendError)
    ensures
        r@ == match source@ {
            ToolErrorView::Cancelled => BackendErrorView::Cancelled,
            other => BackendErrorView::Capability { source: other.message() },
        },
{
    match source {
        ToolError::Cancelled => BackendError::Cancelled,
        other => BackendError::Capability { source: other.message() },
    }
}

/// The first line that holds something, without the white space around it.
pub open spec fn first_text(lines: Seq<Seq<char>>) -> Option<Seq<char>>
    decreases lines.len(),
{
    if lines.len() == 0 {
        None
    } else if text::trim(lines[0]).len() > 0 {
        Some(bounded_line(text::trim(lines[0])))
    } else {
        first_text(lines.drop_first())
    }
}

/// The first line that holds something, as it is shown.
pub fn first_line(output: &str) -> (r: Option<String>)
    ensures
        r.deep_view() == first_text(text::split(output@, '\n')),
{
    let lines = text::pieces(output, '\n');
    let ghost all = lines.deep_view();
    let mut i: usize = 0;
    proof {
        assert(all.skip(0) =~= all);
    }
    while i < lines.len()
        invariant
            all == lines.deep_view(),
            all == text::split(output@, '\n'),
            i <= lines@.len(),
            first_text(all) == first_text(all.skip(i as int)),
        decreases lines@.len() - i,
    {
        proof {
            assert(all[i as int] == lines@[i as int]@);
            assert(all.skip(i as int)[0] == all[i as int]);
            assert(all.skip(i as int).drop_first() =~= all.skip(i + 1));
        }
        let line = text::trimmed(lines[i].as_str());
        if text::chars_of(line.as_str()).len() > 0 {
            return Some(bounded(line.as_str()));
        }
        i = i + 1;
    }
    None
}

/// The word of a version line that holds the version.
pub open spec fn version_word(line: Option<Seq<char>>) -> Option<Seq<char>> {
    match line {
        Some(l) => if text::words(l).len() > 2 {
            Some(text::words(l)[2])
        } else {
            None
        },
        None => None,
    }
}

/// The word of a version line that holds the version.
pub fn leading_version(line: &Option<String>) -> (r: Option<String>)
    ensures
        r.deep_view() == version_word(line.deep_view()),
{
    match line {
        Some(l) => {
            let words = text::split_words(l.as_str());
            proof {
                assert(words.deep_view().len() == words@.len());
            }
            if words.len() > 2 {
                proof {
                    assert(words.deep_view()[2] == words@[2]@);
                }
                Some(words[2].clone())
            } else {
                None
            }
        },
        None => None,
    }
}

/// A word of a line, or nothing where there are fewer.
pub open spec fn field(line: Seq<char>, i: int) -> Seq<char> {
    if i < text::words(line).len() {
        text::words(line)[i]
    } else {
        seq![]
    }
}

/// Whether a line of a codec table names this codec.
pub open spec fn codec_line(line: Seq<char>, expected: Seq<char>) -> bool {
    encode_utf8(field(line, 0)).len() >= 6 && text::lower(field(line, 1)) == text::lower(expected)
}

/// The name under which a codec table lists a codec.
pub open spec fn table_name(requested: Seq<char>, dts_alias: Seq<char>) -> Seq<char> {
    if text::lower(requested) == "dts"@ {
        dts_alias
    } else {
        requested
    }
}

/// Whether a codec table lists a codec.
pub open spec fn codec_listed(
    output: Seq<char>,
    requested: Seq<char>,
    dts_alias: Seq<char>,
) -> bool {
    exists|i: int|
        0 <= i < text::split(output, '\n').len() && #[trigger] codec_line(
            text::split(output, '\n')[i],
            table_name(requested, dts_alias),
        )
}

fn field_of(words: &Vec<String>, i: usize) -> (r: String)
    ensures
        r@ == if i < words@.len() {
            words.deep_view()[i as int]
        } else {
            seq![]
        },
{
    if i < words.len() {
        proof {
            assert(words.deep_view()[i as int] == words@[i as int]@);
        }
        words[i].clone()
    } else {
        let r = String::new();
        proof {
            assert(r@ =~= seq![]);
        }
        r
    }
}

fn is_codec_line(line: &str, expected: &str) -> (r: bool)
    ensures
        r == codec_line(line@, expected@),
{
    let words = text::split_words(line);
    proof {
        assert(words.deep_view().len() == words@.len());
    }
    let flags = field_of(&words, 0);
    let name = field_of(&words, 1);
    let long = flags.as_str().as_bytes().len() >= 6;
    long && text::same_ignoring_case(name.as_str(), expected)
}

/// Whether a codec table lists a codec.
pub fn codec_present(output: &str, requested: &str, dts_alias: &str) -> (r: bool)
    ensures
        r == codec_listed(output@, requested@, dts_alias@),
{
    proof {
        reveal_strlit("dts");
        assert("dts"@ =~= seq!['d', 't', 's']);
        assert(text::lower("dts"@) =~= "dts"@);
    }
    let expected = if text::same_ignoring_case(requested, "dts") {
        dts_alias
    } else {
        requested
    };
    let lines = text::pieces(output, '\n');
    let ghost all = lines.deep_view();
    let mut i: usize = 0;
    while i < lines.len()
        invariant
            all == lines.deep_view(),
            all == text::split(output@, '\n'),
            expected@ == table_name(requested@, dts_alias@),
            i <= lines@.len(),
            forall|j: int| 0 <= j < i ==> !#[trigger] codec_line(all[j], expected@),
        decreases lines@.len() - i,
    {
        proof {
            assert(all[i as int] == lines@[i as int]@);
        }
        if is_codec_line(lines[i].as_str(), expected) {
            return true;
        }
        i = i + 1;
    }
    proof {
        assert(all.len() == lines@.len());
    }
    false
}

/// Whether a line of a container table names this container with this flag.
pub open spec fn format_line(line: Seq<char>, requested: Seq<char>, flag: char) -> bool {
    field(line, 0).contains(flag) && exists|i: int|
        0 <= i < text::split(field(line, 1), ',').len() && #[trigger] text::lower(
            text::split(field(line, 1), ',')[i],
        ) == text::lower(requested)
}

/// Whether a container table lists a container with this flag.
pub open spec fn format_listed(output: Seq<char>, requested: Seq<char>, flag: char) -> bool {
    exists|i: int|
        0 <= i < text::split(output, '\n').len() && #[trigger] format_line(
            text::split(output, '\n')[i],
            requested,
            flag,
        )
}

fn is_format_line(line: &str, requested: &str, flag: char) -> (r: bool)
    ensures
        r == format_line(line@, requested@, flag),
{
    let words = text::split_words(line);
    proof {
        assert(words.deep_view().len() == words@.len());
    }
    let flags = field_of(&words, 0);
    let names = field_of(&words, 1);
    if !text::has_char(flags.as_str(), flag) {
        return false;
    }
    let parts = text::pieces(names.as_str(), ',');
    let ghost all = parts.deep_view();
    let mut i: usize = 0;
    while i < parts.len()
        invariant
            all == parts.deep_view(),
            all == text::split(field(line@, 1), ','),
            field(line@, 0).contains(flag),
            i <= parts@.len(),
            forall|j: int| 0 <= j < i ==> #[trigger] text::lower(all[j]) != text::lower(requested@),
        decreases parts@.len() - i,
    {
        proof {
            assert(all[i as int] == parts@[i as int]@);
        }
        if text::same_ignoring_case(parts[i].as_str(), requested) {
            return true;
        }
        i = i + 1;
    }
    proof {
        assert(all.len() == parts@.len());
    }
    false
}

/// Whether a container table lists a container with this flag.
pub fn format_present(output: &str, requested: &str, flag: char) -> (r: bool)
    ensures
        r == format_listed(output@, requested@, flag),
{
    let lines = text::pieces(output, '\n');
    let ghost all = lines.deep_view();
    let mut i: usize = 0;
    while i < lines.len()
        invariant
            all == lines.deep_view(),
            all == text::split(output@, '\n'),
            i <= lines@.len(),
            forall|j: int| 0 <= j < i ==> !#[trigger] format_line(all[j], requested@, flag),
        decreases lines@.len() - i,
    {
        proof {
            assert(all[i as int] == lines@[i as int]@);
        }
        if is_format_line(lines[i].as_str(), requested, flag) {
            return true;
        }
        i = i + 1;
    }
    proof {
        assert(all.len() == lines@.len());
    }
    false
}

/// What the tools answered.
#[derive(Debug, PartialEq, Eq)]
pub struct Answers {
    /// Which conversion tool it is.
    pub ffmpeg_version: String,
    /// Which inspection tool it is.
    pub ffprobe_version: String,
    /// What can be decoded.
    pub decoders: String,
    /// What can be encoded.
    pub encoders: String,
    /// Which containers there are.
    pub formats: String,
}

/// What the tools answered.
pub struct AnswersView {
    /// Which conversion tool it is.
    pub ffmpeg_version: Seq<char>,
    /// Which inspection tool it is.
    pub ffprobe_version: Seq<char>,
    /// What can be decoded.
    pub decoders: Seq<char>,
    /// What can be encoded.
    pub encoders: Seq<char>,
    /// Which containers there are.
    pub formats: Seq<char>,
}

impl View for Answers {
    type V = AnswersView;

    open spec fn view(&self) -> AnswersView {
        AnswersView {
            ffmpeg_version: self.ffmpeg_version@,
            ffprobe_version: self.ffprobe_version@,
            decoders: self.decoders@,
            encoders: self.encoders@,
            formats: self.formats@,
        }
    }
}

impl DeepView for Answers {
    type V = AnswersView;

    open spec fn deep_view(&self) -> AnswersView {
        self@
    }
}

/// Whether the answers offer something.
pub open spec fn offered(answers: AnswersView, capability: MediaCapabilityView) -> bool {
    match capability {
        MediaCapabilityView::Decoder(name) => codec_listed(answers.decoders, name, "dca"@),
        MediaCapabilityView::Encoder(name) => codec_listed(answers.encoders, name, name),
        MediaCapabilityView::Demuxer(name) => format_listed(answers.formats, name, 'D'),
        MediaCapabilityView::Muxer(name) => format_listed(answers.formats, name, 'E'),
    }
}

fn is_offered(answers: &Answers, capability: &MediaCapability) -> (r: bool)
    ensures
        r == offered(answers@, capability@),
{
    match capability {
        MediaCapability::Decoder(name) => codec_present(
            answers.decoders.as_str(),
            name.as_str(),
            "dca",
        ),
        MediaCapability::Encoder(name) => codec_present(
            answers.encoders.as_str(),
            name.as_str(),
            name.as_str(),
        ),
        MediaCapability::Demuxer(name) => format_present(
            answers.formats.as_str(),
            name.as_str(),
            'D',
        ),
        MediaCapability::Muxer(name) => format_present(
            answers.formats.as_str(),
            name.as_str(),
            'E',
        ),
    }
}

/// One entry of the report for each thing that was asked for.
pub open spec fn checks_of(
    answers: AnswersView,
    required: Seq<MediaCapabilityView>,
) -> Seq<CapabilityCheckView> {
    Seq::new(
        required.len(),
        |i: int|
            CapabilityCheckView {
                capability: required[i],
                available: offered(answers, required[i]),
                detail: None,
            },
    )
}

/// Whether two paths lie in different directories.
pub open spec fn apart(a: Option<Seq<u8>>, b: Option<Seq<u8>>) -> bool {
    match (a, b) {
        (Some(x), Some(y)) => !path::same_path(x, y),
        (None, None) => false,
        _ => true,
    }
}

/// What there is to know of a pair of tools.
pub open spec fn pair_warnings(tools: CliBackendView, answers: AnswersView) -> Seq<Seq<char>> {
    let place = if apart(path::parent(tools.ffmpeg_path), path::parent(tools.ffprobe_path)) {
        seq!["ffmpeg and ffprobe resolve from different directories"@]
    } else {
        seq![]
    };
    let version = if version_word(first_text(text::split(answers.ffmpeg_version, '\n')))
        != version_word(first_text(text::split(answers.ffprobe_version, '\n'))) {
        seq!["ffmpeg and ffprobe report different leading versions"@]
    } else {
        seq![]
    };
    place + version
}

/// The report on a pair of tools.
pub open spec fn report_of(
    tools: CliBackendView,
    required: Seq<MediaCapabilityView>,
    answers: AnswersView,
) -> BackendCapabilitiesView {
    BackendCapabilitiesView {
        backend_name: "ffmpeg-cli"@,
        tools: seq![
            BackendToolInfoView {
                role: BackendToolRole::Ffmpeg,
                path: tools.ffmpeg_path,
                version: first_text(text::split(answers.ffmpeg_version, '\n')),
            },
            BackendToolInfoView {
                role: BackendToolRole::Ffprobe,
                path: tools.ffprobe_path,
                version: first_text(text::split(answers.ffprobe_version, '\n')),
            },
        ],
        checks: checks_of(answers, required),
        warnings: pair_warnings(tools, answers),
    }
}

fn are_apart(a: &Option<FilePath>, b: &Option<FilePath>) -> (r: bool)
    ensures
        r == apart(a.deep_view(), b.deep_view()),
{
    match (a, b) {
        (Some(x), Some(y)) => !x.same(y),
        (None, None) => false,
        _ => true,
    }
}

fn check_all(answers: &Answers, required: &Vec<MediaCapability>) -> (r: Vec<CapabilityCheck>)
    ensures
        r.deep_view() == checks_of(answers@, required.deep_view()),
{
    let ghost all = required.deep_view();
    let mut out: Vec<CapabilityCheck> = Vec::new();
    let mut i: usize = 0;
    proof {
        assert(out.deep_view() =~= checks_of(answers@, all.take(0)));
    }
    while i < required.len()
        invariant
            all == required.deep_view(),
            i <= required@.len(),
            out.deep_view() == checks_of(answers@, all.take(i as int)),
        decreases required@.len() - i,
    {
        let ghost before = out.deep_view();
        let available = is_offered(answers, &required[i]);
        let check = CapabilityCheck::new(required[i].clone(), available, None);
        out.push(check);
        proof {
            assert(all[i as int] == required@[i as int]@);
            assert(check@.detail == None::<Seq<char>>);
            assert(out.deep_view() =~= before.push(check@));
            assert(out.deep_view() =~= checks_of(answers@, all.take(i + 1)));
        }
        i = i + 1;
    }
    proof {
        assert(all.take(i as int) =~= all);
    }
    out
}

impl FfmpegCliBackend {
    /// The report on the two tools, given what they answered.
    pub fn inspect_capabilities(&self, request: &CapabilityRequest, answers: &Answers) -> (r:
        BackendCapabilities)
        ensures
            r@ == report_of(self@, request@.required, answers@),
    {
        let checks = check_all(answers, request.required());
        let mut warnings: Vec<String> = Vec::new();
        let ffmpeg_parent = self.ffmpeg_path().parent();
        let ffprobe_parent = self.ffprobe_path().parent();
        if are_apart(&ffmpeg_parent, &ffprobe_parent) {
            warnings.push("ffmpeg and ffprobe resolve from different directories".to_owned());
        }
        let ffmpeg_line = first_line(answers.ffmpeg_version.as_str());
        let ffprobe_line = first_line(answers.ffprobe_version.as_str());
        if !text::same_option(&leading_version(&ffmpeg_line), &leading_version(&ffprobe_line)) {
            warnings.push("ffmpeg and ffprobe report different leading versions".to_owned());
        }
        let mut tools: Vec<BackendToolInfo> = Vec::new();
        tools.push(
            BackendToolInfo::new(BackendToolRole::Ffmpeg, self.ffmpeg_path().clone(), ffmpeg_line),
        );
        tools.push(
            BackendToolInfo::new(
                BackendToolRole::Ffprobe,
                self.ffprobe_path().clone(),
                ffprobe_line,
            ),
        );
        proof {
            assert(warnings.deep_view() =~= pair_warnings(self@, answers@));
            assert(tools.deep_view() =~= report_of(self@, request@.required, answers@).tools);
        }
        BackendCapabilities::new("ffmpeg-cli", tools, checks, warnings)
    }
}

} // verus!
