//! Running tools, one event at a time, and smaller facts about values.
use std::time::Duration;

use sonicmux::backend::{IoError, IoErrorKind};
use sonicmux::cli::dto::encode_hex;
use sonicmux::ffmpeg::execute::{
    conclude_execution, conclude_probe, execute_error, join_progress, join_stdout, probe_error,
    ExecutionError,
};
use sonicmux::ffmpeg::probe::ProbeError;
use sonicmux::ffmpeg::process::{
    advance, stop_outcome, supervise, ExitFacts, RunAction, RunEnd, RunEvent, StderrFault,
    StopFault,
};
use sonicmux::ffmpeg::progress::{ProgressError, ProgressReadReport, ProgressReader};
use sonicmux::media::{FormatInfo, MediaInfo};
use sonicmux::model::{ChannelCount, Metadata, StreamIndex};
use sonicmux::number::{parse_i64_text, parse_u64_text, show_i64, show_u64};
use sonicmux::path::FilePath;
use sonicmux::plan::{AudioSelector, RequestedAction};
use sonicmux::policy::{CompatibilityPolicy, ProfileName};
use sonicmux::runtime::discovery::{path_key, Discovery, DiscoveryRequest};
use sonicmux::runtime::prepare::{resolve_action, ActionRequest, AudioSelectionRequest};
use sonicmux::stream::{
    AudioCodec, AudioStream, Channels, Dispositions, StreamCommon, StreamInfo,
};
use sonicmux::table::{TextMap, TextSet};

type End = RunEnd<ProgressReadReport, ExecutionError>;

/// Feeds events to a supervision and tells the actions and the end.
fn follow(events: Vec<RunEvent<ProgressReadReport, ExecutionError>>) -> (Vec<&'static str>, Option<End>) {
    let (mut stage, mut action) = supervise();
    let mut told = Vec::new();
    for event in events {
        told.push(name(&action));
        let next = advance(stage, event);
        stage = next.0;
        action = next.1;
    }
    told.push(name(&action));
    match action {
        RunAction::Finish(end) => (told, Some(end)),
        _ => (told, None),
    }
}

fn name(action: &RunAction<ProgressReadReport, ExecutionError>) -> &'static str {
    match action {
        RunAction::CheckReader => "check",
        RunAction::Poll => "poll",
        RunAction::Rest => "rest",
        RunAction::Stop => "stop",
        RunAction::Drain => "drain",
        RunAction::AwaitReader => "reader",
        RunAction::AwaitStderr => "stderr",
        RunAction::Wait => "wait",
        RunAction::Finish(_) => "finish",
    }
}

fn report(saw_end: bool) -> ProgressReadReport {
    ProgressReadReport { last: None, saw_end }
}

fn exit(success: bool, code: i32) -> ExitFacts {
    ExitFacts { success, code: Some(code) }
}

fn broken() -> IoError {
    IoError::new(IoErrorKind::Other, "broken".to_owned())
}

fn concluded(end: Option<End>) -> Result<Duration, ExecutionError> {
    let end = end.expect("the supervision is over");
    conclude_execution(end, Duration::from_secs(3), vec!["late".to_owned()])
        .map(|report| {
            assert_eq!(report.warnings(), &vec!["late".to_owned()]);
            report.elapsed()
        })
}

#[test]
fn tools_run_to_their_end() {
    let (actions, end) = follow(vec![
        RunEvent::ReaderPending,
        RunEvent::Polled(Ok(None)),
        RunEvent::Ticked,
        RunEvent::ReaderPending,
        RunEvent::Polled(Ok(Some(exit(true, 0)))),
        RunEvent::ReaderJoined(Ok(report(true))),
        RunEvent::StderrJoined(Ok(Vec::new())),
    ]);
    assert_eq!(
        actions,
        vec!["check", "poll", "rest", "check", "poll", "reader", "stderr", "finish"]
    );
    assert_eq!(concluded(end), Ok(Duration::from_secs(3)));
}

#[test]
fn cancelled_tools_are_stopped_and_drained() {
    let (actions, end) = follow(vec![
        RunEvent::ReaderPending,
        RunEvent::Polled(Ok(None)),
        RunEvent::Cancelled,
        RunEvent::Stopped(Ok(())),
        RunEvent::Drained,
    ]);
    assert_eq!(actions, vec!["check", "poll", "rest", "stop", "drain", "finish"]);
    assert_eq!(concluded(end), Err(ExecutionError::Cancelled));
}

#[test]
fn failed_readers_stop_the_tool() {
    let fault = ExecutionError::Progress(ProgressError::InvalidUtf8);
    let (actions, end) = follow(vec![
        RunEvent::ReaderJoined(Err(fault)),
        RunEvent::Stopped(Ok(())),
        RunEvent::Drained,
    ]);
    assert_eq!(actions, vec!["check", "stop", "drain", "finish"]);
    assert_eq!(concluded(end), Err(ExecutionError::Progress(ProgressError::InvalidUtf8)));
}

#[test]
fn success_needs_a_terminal_record() {
    let run = |status, saw_end| {
        follow(vec![
            RunEvent::ReaderJoined(Ok(report(saw_end))),
            RunEvent::Polled(Ok(Some(status))),
            RunEvent::StderrJoined(Ok(b" no space \n".to_vec())),
        ])
        .1
    };
    assert_eq!(concluded(run(exit(true, 0), false)), Err(ExecutionError::MissingProgressEnd));
    assert_eq!(
        concluded(run(exit(false, 1), true)),
        Err(ExecutionError::Failed { code: Some(1), stderr: "no space".to_owned() })
    );
}

#[test]
fn every_end_of_a_tool_has_its_failure() {
    let ends = vec![
        (RunEnd::WaitFailed(broken()), ExecutionError::Wait { source: broken() }),
        (
            RunEnd::StopFailed(StopFault::Wait(broken())),
            ExecutionError::Wait { source: broken() },
        ),
        (
            RunEnd::StopFailed(StopFault::Kill(broken())),
            ExecutionError::Terminate { source: broken() },
        ),
        (
            RunEnd::StderrFailed(StderrFault::Task("gone".to_owned())),
            ExecutionError::ReaderTask { pipe: "stderr", message: "gone".to_owned() },
        ),
        (
            RunEnd::StderrFailed(StderrFault::Read(broken())),
            ExecutionError::ReaderTask { pipe: "stderr", message: "broken".to_owned() },
        ),
    ];
    for (end, error) in ends {
        assert_eq!(concluded(Some(end)), Err(error));
    }
    assert_eq!(
        join_progress(Err("panicked".to_owned())),
        Err(ExecutionError::ReaderTask { pipe: "stdout", message: "panicked".to_owned() })
    );
    assert_eq!(join_stdout(Ok(Ok(vec![1]))), Ok(vec![1]));
    assert!(matches!(join_stdout(Err("x".to_owned())), Err(ProbeError::StdoutTask { .. })));
}

#[test]
fn probes_end_with_a_document() {
    let end: RunEnd<Vec<u8>, ProbeError> =
        RunEnd::Exited { status: exit(true, 0), output: b"{}".to_vec(), stderr: Vec::new() };
    assert_eq!(conclude_probe(end), Ok(b"{}".to_vec()));
    let end: RunEnd<Vec<u8>, ProbeError> = RunEnd::Exited {
        status: exit(false, 1),
        output: Vec::new(),
        stderr: b"Invalid data".to_vec(),
    };
    assert_eq!(
        conclude_probe(end),
        Err(ProbeError::Failed { code: Some(1), stderr: "Invalid data".to_owned() })
    );
    let path = FilePath::from_text("movie.mkv");
    assert_eq!(probe_error(&path, ProbeError::Cancelled), sonicmux::backend::BackendError::Cancelled);
    assert_eq!(
        execute_error(ExecutionError::MissingProgressEnd).message(),
        "media execution failed: FFmpeg exited successfully without `progress=end`"
    );
}

#[test]
fn stopping_always_reaps() {
    assert_eq!(stop_outcome(None, Ok(())), Ok(()));
    assert_eq!(stop_outcome(Some(broken()), Ok(())), Err(StopFault::Kill(broken())));
    assert_eq!(stop_outcome(Some(broken()), Err(broken())), Err(StopFault::Wait(broken())));
}

#[test]
fn events_that_nobody_waits_for_change_nothing() {
    let (actions, end) = follow(vec![RunEvent::Drained, RunEvent::ReaderPending]);
    assert_eq!(actions, vec!["check", "wait", "poll"]);
    assert!(end.is_none());
}

#[test]
fn chunks_make_no_difference() {
    let input = b"frame=1\nspeed=2x\nprogress=continue\nframe=2\nprogress=end\n".to_vec();
    let read = |size: usize| {
        let mut reader = ProgressReader::new();
        let mut events = Vec::new();
        for chunk in input.chunks(size) {
            let (told, result) = reader.feed(&chunk.to_vec());
            assert_eq!(result, Ok(()));
            events.extend(told);
        }
        let (told, report) = reader.finish();
        events.extend(told);
        (events, report)
    };
    assert_eq!(read(1), read(1_000));
    assert_eq!(read(3), read(1_000));
}

#[test]
fn numbers_are_read_back() {
    for n in [0, 9, 10, 1_234_567_890, u64::MAX] {
        assert_eq!(parse_u64_text(&show_u64(n)), Some(n));
        assert_eq!(show_u64(n), n.to_string());
    }
    for n in [i64::MIN, -1, 0, i64::MAX] {
        assert_eq!(parse_i64_text(&show_i64(n)), Some(n));
    }
    assert_eq!(parse_u64_text("18446744073709551616"), None);
    assert_eq!(parse_u64_text("-0"), None);
    assert_eq!(parse_u64_text("+7"), Some(7));
    assert_eq!(encode_hex(&Vec::new()), "");
}

#[test]
fn tables_are_ordered_by_their_keys() {
    let mut forwards = TextMap::new();
    let mut backwards = TextMap::new();
    for key in ["b", "a", "c"] {
        forwards.insert(key.to_owned(), key.len() as u64);
    }
    for key in ["c", "a", "b", "a"] {
        backwards.insert(key.to_owned(), key.len() as u64);
    }
    assert_eq!(forwards, backwards);
    let keys: Vec<&str> = (0..forwards.len()).map(|i| forwards.key_at(i)).collect();
    assert_eq!(keys, vec!["a", "b", "c"]);
    assert_eq!(forwards.get("d"), None);
    let mut set = TextSet::new();
    set.insert("y");
    set.insert("x");
    set.insert("y");
    assert_eq!(set.to_texts(), vec!["x", "y"]);
    assert!(set.contains("x") && !set.contains("z"));
}

#[test]
fn paths_have_keys() {
    assert_eq!(path_key(&FilePath::from_text("/a//b/./c")), path_key(&FilePath::from_text("/a/b/c")));
    assert_ne!(path_key(&FilePath::from_text("/a/b")), path_key(&FilePath::from_text("a/b")));
    let request = || DiscoveryRequest {
        roots: vec![FilePath::from_text("/m")],
        recursive: true,
        follow_links: false,
        includes: Vec::new(),
        excludes: Vec::new(),
    };
    let root = FilePath::from_text("/m");
    let (first, second) = (FilePath::from_text("/m/a.mkv"), FilePath::from_text("/m/a/b.mkv"));
    let one = Discovery::start(request())
        .expect("filters compile")
        .add_entry(&root, &first, true)
        .add_entry(&root, &second, true)
        .finish();
    let other = Discovery::start(request())
        .expect("filters compile")
        .add_entry(&root, &second, true)
        .add_entry(&root, &first, true)
        .finish();
    assert_eq!(one, other);
    assert_eq!(one, vec![second, first]);
}

fn spoken(index: u32, codec: AudioCodec, language: &str) -> StreamInfo {
    let mut metadata = Metadata::default();
    metadata.insert("language", language).expect("metadata is valid");
    StreamInfo::Audio(AudioStream::new(
        StreamCommon::new(StreamIndex::new(index), "audio")
            .expect("codec is valid")
            .with_metadata(metadata)
            .with_dispositions(Dispositions::from_flags(TextMap::new())),
        codec,
        Channels::new(ChannelCount::new(2).expect("channels are valid"), None),
        None,
    ))
}

#[test]
fn audio_is_chosen_by_language() {
    let media = MediaInfo::new(
        FilePath::from_text("movie.mkv"),
        FormatInfo::new(vec!["matroska".to_owned()]).expect("format is valid"),
        vec![
            spoken(0, AudioCodec::TrueHd, "ger"),
            spoken(1, AudioCodec::Ac3, "GER"),
            spoken(2, AudioCodec::Ac3, "eng"),
            spoken(3, AudioCodec::Aac, "eng"),
        ],
        Vec::new(),
    )
    .expect("media is valid");
    let policy = CompatibilityPolicy::for_profile(ProfileName::GenericTv);
    let choose = |language: &str| {
        let wanted = ActionRequest::RemuxOnly(AudioSelectionRequest::Language(language.to_owned()));
        resolve_action(&media, &policy, &wanted)
    };
    assert_eq!(
        choose("ger"),
        Ok(RequestedAction::RemuxOnly {
            selection: AudioSelector::StreamIndex(StreamIndex::new(1)),
        })
    );
    assert!(choose("fre").is_err());
    let ambiguous = choose("eng").expect_err("two streams fit");
    assert!(ambiguous.message().contains('2') && ambiguous.message().contains('3'));
}
