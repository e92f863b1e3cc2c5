//! The tools: what they are asked, and how their answers are read.
use sonicmux::backend::{IoError, IoErrorKind, ProgressEvent};
use sonicmux::ffmpeg::capabilities::{
    codec_present, diagnostic_answer, first_line, format_present, join_reader, leading_version,
    Diagnostic,
};
use sonicmux::ffmpeg::command::{build_execution_arguments, Argument, ArgumentError};
use sonicmux::ffmpeg::discovery::{
    explicit_candidates, ffmpeg_name, ffprobe_name, require_files, resolve_path, resolve_toolchain,
    resolve_toolchain_hybrid, Platform, ToolchainSource,
};
use sonicmux::ffmpeg::error::{BackendError, ToolError};
use sonicmux::ffmpeg::probe::{
    append_bounded, append_tail, convert_chapter, convert_document, convert_stream,
    parse_decimal_micros, FfmpegCliBackend, FfmpegToolchainPaths, JsonValue, ProbeError,
    RawChapter, RawFormat, RawProbeDocument, RawStream,
};
use sonicmux::ffmpeg::progress::{
    ProgressError, ProgressReadReport, ProgressReader, MAX_PROGRESS_LINE_BYTES,
};
use sonicmux::media::{MediaInfo, ProbeWarning};
use sonicmux::model::StreamIndex;
use sonicmux::path::FilePath;
use sonicmux::plan::{
    build, AudioSelector, JobPlan, OutputMode, PlanOutcome, PlanningPolicy, RequestedAction,
};
use sonicmux::policy::{CompatibilityPolicy, ProfileName};
use sonicmux::stream::{AudioCodec, DtsProfile, StreamInfo};
use sonicmux::table::TextMap;
use sonicmux::target::{AacBitrate, Ac3Bitrate, AudioTarget, Eac3Bitrate, TargetLayout};

fn text(value: &str) -> JsonValue {
    JsonValue::Text(value.to_owned())
}

fn number(value: &str) -> JsonValue {
    JsonValue::Number(value.to_owned())
}

fn values(pairs: &[(&str, JsonValue)]) -> TextMap<JsonValue> {
    let mut map = TextMap::new();
    for (key, value) in pairs {
        map.insert((*key).to_owned(), value.clone());
    }
    map
}

fn raw_stream(index: u32, kind: &str, codec: &str) -> RawStream {
    RawStream {
        index: Some(index),
        codec_name: Some(codec.to_owned()),
        codec_type: Some(kind.to_owned()),
        profile: None,
        bit_rate: None,
        sample_rate: None,
        channels: None,
        channel_layout: None,
        time_base: Some("1/1000".to_owned()),
        start_pts: None,
        duration_ts: None,
        tags: TextMap::new(),
        disposition: TextMap::new(),
    }
}

fn raw_format() -> RawFormat {
    RawFormat {
        format_name: Some("matroska,webm".to_owned()),
        duration: Some(text("60.500000")),
        start_time: Some(text("0.000000")),
        bit_rate: Some(text("8000000")),
        tags: values(&[("title", text("Movie"))]),
    }
}

/// A video, two audio streams, a subtitle, a font and a chapter.
fn mixed_document() -> RawProbeDocument {
    let mut video = raw_stream(0, "video", "hevc");
    video.disposition = values(&[("default", number("1"))]);
    let mut dts = raw_stream(1, "audio", "dts");
    dts.profile = Some("DTS-HD MA".to_owned());
    dts.sample_rate = Some(text("48000"));
    dts.channels = Some(number("6"));
    dts.channel_layout = Some("5.1(side)".to_owned());
    dts.tags = values(&[("language", text("eng")), ("title", text("Main"))]);
    dts.disposition = values(&[("default", number("1")), ("future_flag", number("1"))]);
    let mut ac3 = raw_stream(2, "audio", "ac3");
    ac3.sample_rate = Some(text("48000"));
    ac3.channels = Some(number("2"));
    ac3.bit_rate = Some(text("192000"));
    ac3.disposition = values(&[("default", number("0")), ("comment", number("1"))]);
    let subtitle = raw_stream(3, "subtitle", "subrip");
    let mut font = raw_stream(4, "attachment", "ttf");
    font.tags = values(&[("filename", text("Font.ttf")), ("mimetype", text("font/ttf"))]);
    RawProbeDocument {
        streams: vec![video, dts, ac3, subtitle, font],
        chapters: vec![RawChapter {
            id: Some(number("1")),
            time_base: Some("1/1000".to_owned()),
            start: Some(number("0")),
            end: Some(number("60500")),
            tags: values(&[("title", text("Opening"))]),
        }],
        format: Some(raw_format()),
    }
}

fn document(streams: Vec<RawStream>) -> RawProbeDocument {
    RawProbeDocument { streams, chapters: Vec::new(), format: Some(raw_format()) }
}

fn parsed(path: &str, document: &RawProbeDocument) -> MediaInfo {
    convert_document(FilePath::from_text(path), document).expect("document is valid")
}

fn plan_with(mode: OutputMode, action: RequestedAction, target: AudioTarget) -> JobPlan {
    let media = parsed("<INPUT>.mkv", &mixed_document());
    let policy = PlanningPolicy::new(
        CompatibilityPolicy::for_profile(ProfileName::GenericTv),
        target,
        mode,
        action,
        FilePath::from_text("<OUTPUT>"),
    );
    match build(&media, &policy).expect("plan builds") {
        PlanOutcome::Execute(plan) => plan,
        PlanOutcome::Skip(reason) => panic!("unexpected skip: {reason:?}"),
        _ => panic!("unexpected outcome"),
    }
}

fn ac3_640() -> AudioTarget {
    AudioTarget::Ac3 {
        bitrate: Ac3Bitrate::new(640_000).expect("bitrate is valid"),
        layout: TargetLayout::KeepUpTo51,
    }
}

fn add_plan() -> JobPlan {
    plan_with(OutputMode::Add, RequestedAction::Convert, ac3_640())
}

fn shown(arguments: &[Argument]) -> Vec<String> {
    arguments
        .iter()
        .map(|argument| match argument {
            Argument::Text(value) => value.clone(),
            Argument::Path(path) => path.display(),
        })
        .collect()
}

/// The arguments between the leading and the closing ones, which are the same for every plan.
fn middle(plan: &JobPlan) -> Vec<String> {
    let built = build_execution_arguments(plan, &FilePath::from_text("<STAGING>"))
        .expect("arguments build");
    assert!(built.warnings().is_empty());
    let all = shown(built.arguments());
    let head = [
        "-hide_banner", "-nostdin", "-y", "-progress", "pipe:1", "-stats_period", "0.25",
        "-nostats", "-copyts", "-i", "<INPUT>.mkv", "-map_metadata", "0", "-map_chapters", "0",
        "-copy_unknown",
    ];
    let tail = [
        "-copytb", "1", "-avoid_negative_ts", "disabled", "-f", "matroska", "<STAGING>",
    ];
    assert_eq!(&all[..head.len()], &head[..]);
    assert_eq!(&all[all.len() - tail.len()..], &tail[..]);
    all[head.len()..all.len() - tail.len()].to_vec()
}

#[test]
fn parses_codec_and_format_tables() {
    assert!(codec_present(" A....D dca DTS", "dts", "dca"));
    assert!(format_present(" DE matroska,webm Matroska", "matroska", 'D'));
    assert!(format_present(" DE matroska,webm Matroska", "matroska", 'E'));
}

#[test]
fn tables_are_read_by_their_columns() {
    assert!(!codec_present(" A....D dca DTS", "ac3", "dca"));
    assert!(codec_present(" A....D dca DTS\n A....D ac3 ATSC A/52A", "ac3", "dca"));
    assert!(!format_present("  E matroska Matroska", "matroska", 'D'));
    assert!(format_present("  E matroska Matroska", "matroska", 'E'));
    assert!(!format_present(" DE matroska,webm Matroska", "mp4", 'D'));
}

#[test]
fn versions_are_read_from_the_first_line() {
    let line = first_line("ffmpeg version 7.1 Copyright\nbuilt with gcc\n");
    assert_eq!(line, Some("ffmpeg version 7.1 Copyright".to_owned()));
    assert_eq!(leading_version(&line), Some("7.1".to_owned()));
    assert_eq!(leading_version(&None), None);
    assert_eq!(leading_version(&Some("something else".to_owned())), None);
}

#[test]
fn diagnostics_carry_the_answer_or_the_failure() {
    assert_eq!(
        diagnostic_answer("ffmpeg", true, &b"Encoders".to_vec(), &Vec::new()),
        Ok("Encoders".to_owned())
    );
    assert_eq!(
        diagnostic_answer("ffmpeg", true, &vec![0xff], &Vec::new()),
        Ok("\u{fffd}".to_owned())
    );
    assert!(matches!(
        diagnostic_answer("ffmpeg", false, &Vec::new(), &b"bad option".to_vec()),
        Err(ToolError::DiagnosticFailed { name: "ffmpeg", stderr }) if stderr == "bad option"
    ));
    assert_eq!(Diagnostic::Encoders.arguments(), vec!["-hide_banner", "-encoders"]);
}

#[test]
fn lost_readers_are_reported() {
    assert!(join_reader("ffmpeg", Err("panicked".to_owned())).is_err());
    assert_eq!(join_reader("ffmpeg", Ok(Ok(vec![1, 2]))), Ok(vec![1, 2]));
}

#[test]
fn add_arguments_are_ordered_and_shell_free() {
    assert_eq!(
        middle(&add_plan()),
        vec![
            "-map", "0:0", "-map", "0:1", "-map", "0:2", "-map", "0:3", "-map", "0:4", "-map",
            "0:1", "-c", "copy", "-disposition:0", "default", "-disposition:1", "future_flag",
            "-disposition:2", "comment", "-disposition:3", "0", "-disposition:4", "0", "-c:a:2",
            "ac3", "-b:a:2", "640000", "-ac:a:2", "6", "-metadata:s:5", "language=eng",
            "-metadata:s:5", "title=Main [AC-3 5.1]", "-disposition:5", "default+future_flag",
        ]
    );
}

#[test]
fn snapshot_replace_arguments() {
    assert_eq!(
        middle(&plan_with(OutputMode::Replace, RequestedAction::Convert, ac3_640())),
        vec![
            "-map", "0:0", "-map", "0:1", "-map", "0:2", "-map", "0:3", "-map", "0:4", "-c",
            "copy", "-disposition:0", "default", "-c:a:0", "ac3", "-b:a:0", "640000", "-ac:a:0",
            "6", "-metadata:s:1", "language=eng", "-metadata:s:1", "title=Main [AC-3 5.1]",
            "-disposition:1", "default+future_flag", "-disposition:2", "comment",
            "-disposition:3", "0", "-disposition:4", "0",
        ]
    );
}

#[test]
fn snapshot_only_new_arguments() {
    assert_eq!(
        middle(&plan_with(OutputMode::OnlyNew, RequestedAction::Convert, ac3_640())),
        vec![
            "-map", "0:0", "-map", "0:1", "-map", "0:3", "-map", "0:4", "-c", "copy",
            "-disposition:0", "default", "-c:a:0", "ac3", "-b:a:0", "640000", "-ac:a:0", "6",
            "-metadata:s:1", "language=eng", "-metadata:s:1", "title=Main [AC-3 5.1]",
            "-disposition:1", "default+future_flag", "-disposition:2", "0", "-disposition:3", "0",
        ]
    );
}

fn remux_arguments(selection: AudioSelector) -> Vec<String> {
    middle(&plan_with(OutputMode::Add, RequestedAction::RemuxOnly { selection }, ac3_640()))
}

#[test]
fn snapshot_remux_arguments() {
    assert_eq!(
        remux_arguments(AudioSelector::FirstCompatible),
        vec![
            "-map", "0:0", "-map", "0:1", "-map", "0:2", "-map", "0:3", "-map", "0:4", "-c",
            "copy", "-disposition:0", "default", "-disposition:1", "future_flag",
            "-disposition:2", "comment+default", "-disposition:3", "0", "-disposition:4", "0",
        ]
    );
}

#[test]
fn snapshot_explicit_remux_selection_arguments() {
    assert_eq!(
        remux_arguments(AudioSelector::StreamIndex(sonicmux::model::StreamIndex::new(2))),
        remux_arguments(AudioSelector::FirstCompatible)
    );
}

fn encoded_pair(plan: &JobPlan) -> Vec<String> {
    let all = middle(plan);
    let at = all.iter().position(|value| value == "-c:a:0").expect("audio is encoded");
    all[at..at + 10].to_vec()
}

#[test]
fn snapshot_stereo_arguments() {
    let target = AudioTarget::Ac3 {
        bitrate: Ac3Bitrate::new(448_000).expect("bitrate is valid"),
        layout: TargetLayout::Stereo,
    };
    assert_eq!(
        encoded_pair(&plan_with(OutputMode::Replace, RequestedAction::Convert, target)),
        vec![
            "-c:a:0", "ac3", "-b:a:0", "448000", "-ac:a:0", "2", "-metadata:s:1", "language=eng",
            "-metadata:s:1", "title=Main [AC-3 stereo]",
        ]
    );
}

#[test]
fn snapshot_aac_arguments() {
    let target = AudioTarget::Aac {
        bitrate: AacBitrate::new(320_000).expect("bitrate is valid"),
        layout: TargetLayout::Stereo,
    };
    assert_eq!(
        encoded_pair(&plan_with(OutputMode::Replace, RequestedAction::Convert, target)),
        vec![
            "-c:a:0", "aac", "-b:a:0", "320000", "-ac:a:0", "2", "-metadata:s:1", "language=eng",
            "-metadata:s:1", "title=Main [AAC stereo]",
        ]
    );
}

#[test]
fn snapshot_eac3_arguments() {
    let target = AudioTarget::Eac3 {
        bitrate: Eac3Bitrate::new(768_000).expect("bitrate is valid"),
        layout: TargetLayout::Surround51,
    };
    assert_eq!(
        encoded_pair(&plan_with(OutputMode::Replace, RequestedAction::Convert, target)),
        vec![
            "-c:a:0", "eac3", "-b:a:0", "768000", "-ac:a:0", "6", "-metadata:s:1",
            "language=eng", "-metadata:s:1", "title=Main [E-AC-3 5.1]",
        ]
    );
}

#[test]
fn every_output_stream_has_an_explicit_disposition() {
    let plan = add_plan();
    let dispositions = middle(&plan)
        .iter()
        .filter(|argument| argument.starts_with("-disposition:"))
        .count();
    assert_eq!(dispositions, plan.streams().len());
}

#[test]
fn encoded_audio_uses_its_audio_output_ordinal() {
    let all = middle(&add_plan());
    assert!(all.iter().any(|argument| argument == "-c:a:2"));
    assert!(!all.iter().any(|argument| argument == "-c:a:5"));
}

#[test]
fn paths_reach_the_tool_as_they_are() {
    let staging = FilePath::from_bytes(vec![b'/', 0xff, b' ', b'\'']);
    let built = build_execution_arguments(&add_plan(), &staging).expect("arguments build");
    assert_eq!(built.arguments().last(), Some(&Argument::Path(staging.clone())));
    assert_eq!(
        ArgumentError::InconsistentPlan.message(),
        "job plan stream operations and expectations are inconsistent"
    );
}

#[test]
fn rejects_an_unrelated_explicit_filename() {
    let searched = || resolve_path(Some(FilePath::from_text("/bin/ffmpeg")), Some(FilePath::from_text("/bin/ffprobe")));
    let named = FilePath::from_text("not-ffmpeg");
    let explicit = explicit_candidates(&named, false, Platform::Other);
    assert_eq!(explicit, Err(ToolError::InvalidPath { path: named.clone() }));
    assert!(resolve_toolchain(Some(explicit), searched()).is_err());
}

#[test]
fn platform_name_is_not_empty() {
    assert!(!ffmpeg_name(Platform::Other).is_empty());
    assert_eq!(ffmpeg_name(Platform::Windows), "ffmpeg.exe");
    assert_eq!(ffprobe_name(Platform::Other), "ffprobe");
    assert_eq!(ffprobe_name(Platform::Windows), "ffprobe.exe");
}

fn in_directory(directory: &str, found: bool) -> Result<FfmpegToolchainPaths, ToolError> {
    match explicit_candidates(&FilePath::from_text(directory), true, Platform::Other) {
        Ok(paths) => require_files(paths, found, found),
        Err(error) => Err(error),
    }
}

#[test]
fn complete_bundle_wins_and_incomplete_bundle_falls_back() {
    let searched = || resolve_path(Some(FilePath::from_text("/bin/ffmpeg")), Some(FilePath::from_text("/bin/ffprobe")));
    let resolved = resolve_toolchain_hybrid(None, Some(in_directory("/bundle", true)), searched())
        .expect("the bundle is complete");
    assert_eq!(resolved.source(), ToolchainSource::Bundled);
    assert_eq!(resolved.paths().ffmpeg(), &FilePath::from_text("/bundle/ffmpeg"));
    assert_eq!(resolved.paths().ffprobe(), &FilePath::from_text("/bundle/ffprobe"));

    let resolved = resolve_toolchain_hybrid(None, Some(in_directory("/bundle", false)), searched())
        .expect("the search path has both");
    assert_eq!(resolved.source(), ToolchainSource::Path);
}

#[test]
fn explicit_value_never_silently_falls_back() {
    let searched = resolve_path(Some(FilePath::from_text("/bin/ffmpeg")), Some(FilePath::from_text("/bin/ffprobe")));
    let explicit = explicit_candidates(&FilePath::from_text("missing-ffmpeg"), false, Platform::Other);
    assert!(resolve_toolchain_hybrid(Some(explicit), None, searched).is_err());
}

#[test]
fn missing_tools_are_named() {
    assert_eq!(
        resolve_path(None, Some(FilePath::from_text("/bin/ffprobe"))),
        Err(ToolError::PathLookup { name: "ffmpeg" })
    );
    assert_eq!(
        resolve_path(Some(FilePath::from_text("/bin/ffmpeg")), None),
        Err(ToolError::PathLookup { name: "ffprobe" })
    );
    assert_eq!(
        in_directory("/bundle", false),
        Err(ToolError::ExecutableNotFound {
            name: "ffmpeg",
            path: FilePath::from_text("/bundle/ffmpeg"),
        })
    );
}

#[test]
fn missing_executable_error_contains_the_path() {
    let error = BackendError::ExecutableNotFound {
        name: "ffmpeg",
        path: FilePath::from_text("/missing/ffmpeg"),
    };

    assert!(error.message().contains("/missing/ffmpeg"));
}

#[test]
fn argument_protocol_uses_of_json() {
    assert_eq!(
        FfmpegCliBackend::probe_arguments(&FilePath::from_text("movie.mkv")),
        vec![
            Argument::Text("-v".to_owned()),
            Argument::Text("error".to_owned()),
            Argument::Text("-of".to_owned()),
            Argument::Text("json".to_owned()),
            Argument::Text("-show_streams".to_owned()),
            Argument::Text("-show_format".to_owned()),
            Argument::Text("-show_chapters".to_owned()),
            Argument::Path(FilePath::from_text("movie.mkv")),
        ]
    );
}

#[test]
fn snapshot_probe_arguments() {
    assert_eq!(
        shown(&FfmpegCliBackend::probe_arguments(&FilePath::from_text("<INPUT>"))),
        vec![
            "-v", "error", "-of", "json", "-show_streams", "-show_format", "-show_chapters",
            "<INPUT>",
        ]
    );
}

#[test]
fn parses_mixed_streams_chapters_and_attachment() {
    let media = parsed("movie.mkv", &mixed_document());
    assert_eq!(media.streams().len(), 5);
    assert_eq!(media.chapters().len(), 1);
    assert!(media.format().is_matroska());
    let audio = media.audio_streams();
    let dts = audio.first().expect("DTS stream exists");
    assert_eq!(dts.codec(), &AudioCodec::Dts(DtsProfile::HdMasterAudio));
    assert_eq!(
        dts.common()
            .metadata()
            .language()
            .map(|value| value.as_str().to_owned()),
        Some("eng".to_owned())
    );
    let attachment = media
        .streams()
        .iter()
        .find_map(|stream| match stream {
            StreamInfo::Attachment(stream) => Some(stream),
            _ => None,
        })
        .expect("attachment exists");
    assert_eq!(attachment.filename(), Some("Font.ttf"));
    assert_eq!(attachment.mime_type(), Some("font/ttf"));
}

#[test]
fn snapshot_parsed_media() {
    let media = parsed("<INPUT>", &mixed_document());
    assert_eq!(media.path(), &FilePath::from_text("<INPUT>"));
    assert_eq!(media.format().names(), &vec!["matroska".to_owned(), "webm".to_owned()]);
    assert_eq!(media.format().duration().map(|value| value.get()), Some(60_500_000));
    assert_eq!(media.format().start_time(), Some(0));
    assert_eq!(media.format().bitrate().map(|value| value.get()), Some(8_000_000));
    assert_eq!(media.format().metadata().title(), Some("Movie"));
    let dts = media.streams()[1].as_audio().expect("audio");
    assert_eq!(dts.channels().count().get(), 6);
    assert_eq!(dts.channels().layout_name(), Some("5.1(side)"));
    assert_eq!(dts.sample_rate().map(|value| value.get()), Some(48_000));
    assert_eq!(dts.common().codec_profile(), Some("DTS-HD MA"));
    let ac3 = media.streams()[2].as_audio().expect("audio");
    assert_eq!(ac3.codec(), &AudioCodec::Ac3);
    assert_eq!(ac3.common().bitrate().map(|value| value.get()), Some(192_000));
    assert!(matches!(media.streams()[0], StreamInfo::Video(_)));
    assert!(matches!(media.streams()[3], StreamInfo::Subtitle(_)));
    let chapter = &media.chapters()[0];
    assert_eq!((chapter.id(), chapter.start(), chapter.end()), (1, 0, 60_500));
    assert_eq!(chapter.metadata().title(), Some("Opening"));
}

#[test]
fn parses_truehd_codec() {
    let mut stream = raw_stream(0, "audio", "truehd");
    stream.channels = Some(number("8"));
    let media = parsed("movie.mkv", &document(vec![stream]));
    assert_eq!(
        media.audio_streams().first().map(|stream| stream.codec()),
        Some(&AudioCodec::TrueHd)
    );
}

#[test]
fn missing_optional_numbers_become_warnings() {
    let mut stream = raw_stream(0, "audio", "ac3");
    stream.channels = Some(number("2"));
    stream.sample_rate = Some(text("fast"));
    stream.bit_rate = Some(text("many"));
    let mut unknown = document(vec![stream]);
    if let Some(format) = &mut unknown.format {
        format.duration = Some(text("N/A"));
    }
    let media = parsed("movie.mkv", &unknown);
    assert!(media.format().duration().is_none());
    assert!(media.warnings().len() >= 3);
    if let Some(format) = &mut unknown.format {
        format.duration = Some(text("later"));
    }
    assert!(matches!(
        convert_document(FilePath::from_text("movie.mkv"), &unknown),
        Err(ProbeError::InvalidField { field: "format.duration", .. })
    ));
}

#[test]
fn duplicate_stream_indices_are_rejected() {
    let document = document(vec![raw_stream(0, "video", "hevc"), raw_stream(0, "subtitle", "ass")]);
    assert!(matches!(
        convert_document(FilePath::from_text("movie.mkv"), &document),
        Err(ProbeError::Model(_))
    ));
}

#[test]
fn missing_audio_channels_is_a_contextual_error() {
    let error = convert_document(
        FilePath::from_text("movie.mkv"),
        &document(vec![raw_stream(0, "audio", "dts")]),
    );
    assert!(matches!(
        error,
        Err(ProbeError::MissingField { field: "streams[].channels", .. })
    ));
}

#[test]
fn missing_parts_of_the_document_are_named() {
    let path = FilePath::from_text("movie.mkv");
    let no_format = RawProbeDocument {
        streams: Vec::new(),
        chapters: Vec::new(),
        format: None,
    };
    assert!(matches!(
        convert_document(path.clone(), &no_format),
        Err(ProbeError::MissingField { field: "format", .. })
    ));
    let mut unnumbered = raw_stream(0, "video", "hevc");
    unnumbered.index = None;
    assert!(matches!(
        convert_document(path, &document(vec![unnumbered])),
        Err(ProbeError::MissingField { field: "streams[].index", .. })
    ));
}

#[test]
fn decimal_seconds_are_parsed_without_float_rounding() {
    assert_eq!(parse_decimal_micros("12.3456789", false), Some(12_345_678));
    assert_eq!(parse_decimal_micros("-0.250000", true), Some(-250_000));
}

#[test]
fn decimal_seconds_have_a_sign_only_where_it_is_allowed() {
    assert_eq!(parse_decimal_micros("-1", false), None);
    assert_eq!(parse_decimal_micros("7", true), Some(7_000_000));
    assert_eq!(parse_decimal_micros("1.2.3", true), None);
    assert_eq!(parse_decimal_micros("9223372036855", true), None);
    assert_eq!(parse_decimal_micros("9223372036854.775807", true), Some(i64::MAX));
}

#[test]
fn retains_unknown_disposition_flags() {
    let media = parsed("movie.mkv", &mixed_document());
    let audio = media.audio_streams();
    let audio = audio.first().expect("audio exists");
    assert_eq!(audio.common().dispositions().flag("future_flag"), Some(true));
}

#[test]
fn bounded_stdout_reader_rejects_oversized_json() {
    let mut output = Vec::new();
    assert_eq!(append_bounded(&mut output, &b"1234".to_vec(), 4), Ok(()));
    assert_eq!(output, b"1234".to_vec());
    assert_eq!(
        append_bounded(&mut output, &b"5".to_vec(), 4),
        Err(ProbeError::OutputTooLarge { limit_bytes: 4 })
    );
    let mut output = Vec::new();
    assert!(matches!(
        append_bounded(&mut output, &b"12345".to_vec(), 4),
        Err(ProbeError::OutputTooLarge { limit_bytes: 4 })
    ));
}

#[test]
fn stderr_reader_retains_only_the_tail() {
    let mut tail = Vec::new();
    append_tail(&mut tail, &b"0123456789".to_vec(), 4);
    assert_eq!(tail, b"6789".to_vec());
    append_tail(&mut tail, &b"ab".to_vec(), 4);
    assert_eq!(tail, b"89ab".to_vec());
}

/// Everything that a tool reports, and what is left at its end.
fn read(input: &[u8]) -> (Vec<ProgressEvent>, Result<ProgressReadReport, ProgressError>) {
    let mut reader = ProgressReader::new();
    let mut events = Vec::new();
    for chunk in input.chunks(7) {
        let (mut told, result) = reader.feed(&chunk.to_vec());
        events.append(&mut told);
        if let Err(error) = result {
            return (events, Err(error));
        }
    }
    let (told, result) = reader.finish();
    events.extend(told);
    (events, result)
}

#[test]
fn parses_partial_crlf_records_and_fixed_speed() {
    let (events, report) = read(b"out_time_us=-21000\r\ntotal_size=42\r\nspeed=1.37x\r\nprogress=continue\r\nout_time_us=5000000\r\nprogress=end\r\n");
    assert!(report.expect("progress parses").saw_end);
    match events.first() {
        Some(ProgressEvent::Advanced(snapshot)) => {
            assert_eq!(snapshot.out_time_us, Some(-21_000));
            assert_eq!(snapshot.total_size_bytes, Some(42));
            assert_eq!(snapshot.speed_milli, Some(1_370));
        }
        _ => panic!("unexpected progress event"),
    }
    assert_eq!(events.len(), 2);
}

#[test]
fn parses_scientific_speed_from_short_jobs() {
    let (_, report) = read(b"speed= 1.25e+03x \nprogress=end\n");
    let report = report.expect("progress parses");
    assert_eq!(report.last.expect("snapshot exists").speed_milli, Some(1_250_000));
}

#[test]
fn accepts_na_and_ignores_unknown_keys() {
    let (_, report) = read(b"out_time_us=N/A\nfuture_key=value\nspeed=N/A\nprogress=end\n");
    let last = report.expect("progress parses").last.expect("last snapshot exists");
    assert_eq!(last.out_time_us, None);
    assert_eq!(last.speed_milli, None);
}

#[test]
fn full_progress_channel_does_not_block_reader() {
    let (events, report) = read(b"progress=continue\nprogress=end\n");
    assert_eq!(events.len(), 2);
    assert!(report.expect("reader completes").saw_end);
}

#[test]
fn rejects_oversized_line_before_unbounded_growth() {
    let (_, error) = read(&vec![b'a'; 16 * 1024 + 1]);
    assert!(matches!(error, Err(ProgressError::LineTooLong { .. })));
    assert_eq!(MAX_PROGRESS_LINE_BYTES, 16 * 1024);
}

#[test]
fn rejects_malformed_known_value_without_echoing_it() {
    let (_, error) = read(b"frame=not-a-number\n");
    assert_eq!(
        error.expect_err("value must fail").message(),
        "invalid FFmpeg progress value for `frame`"
    );
}

#[test]
fn progress_faults_are_told_apart() {
    assert_eq!(read(b"frame=\xff\n").1, Err(ProgressError::InvalidUtf8));
    assert_eq!(
        read(b"progress=end\nframe=1\n").1,
        Err(ProgressError::DataAfterEnd)
    );
    let refused = ProgressError::Read {
        source: IoError::new(IoErrorKind::Other, "gone".to_owned()),
    };
    assert!(refused.message().contains("progress"));
}

#[test]
fn arguments_are_equal_by_what_the_tool_is_given() {
    let text = Argument::Text("a/b".to_owned());
    assert_eq!(text, Argument::Path(FilePath::from_text("a/b")));
    assert_ne!(text, Argument::Path(FilePath::from_text("a//b")));
    assert_eq!(text.to_bytes(), b"a/b".to_vec());
}

#[test]
fn warnings_before_a_fault_are_kept() {
    let earlier = || ProbeWarning::MissingCodecName { stream: StreamIndex::new(7) };
    let unusable = |field: &str| ProbeWarning::InvalidOptionalNumber {
        field: field.to_owned(),
        stream: Some(StreamIndex::new(1)),
    };

    let mut torn = raw_stream(1, "audio", " ");
    torn.bit_rate = Some(text("N/A"));
    torn.start_pts = Some(text("N/A"));
    torn.time_base = Some("1".to_owned());
    let mut warnings = vec![earlier()];
    assert!(convert_stream(&torn, &mut warnings).is_err());
    assert_eq!(
        warnings,
        vec![
            earlier(),
            ProbeWarning::MissingCodecName { stream: StreamIndex::new(1) },
            unusable("streams[].bit_rate"),
        ]
    );

    let mut silent = raw_stream(1, "audio", "ac3");
    silent.start_pts = Some(text("N/A"));
    silent.sample_rate = Some(text("N/A"));
    let mut warnings = vec![earlier()];
    assert!(convert_stream(&silent, &mut warnings).is_err());
    assert_eq!(warnings, vec![earlier(), unusable("streams[].start_pts")]);

    let chapter = |end: &str| RawChapter {
        id: Some(number("1")),
        time_base: Some("1/1000".to_owned()),
        start: Some(number("5")),
        end: Some(number(end)),
        tags: values(&[("parts", JsonValue::Null)]),
    };
    let mut warnings = vec![earlier()];
    assert!(convert_chapter(&chapter("1"), &mut warnings).is_err());
    assert_eq!(
        warnings,
        vec![
            earlier(),
            ProbeWarning::UnsupportedMetadataValue { key: "parts".to_owned(), stream: None },
        ]
    );
    let mut warnings = vec![earlier()];
    assert!(convert_chapter(&chapter("x"), &mut warnings).is_err());
    assert_eq!(warnings, vec![earlier()]);
}
