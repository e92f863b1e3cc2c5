//! Settings, discovery of inputs and the publication of outputs.
use std::time::Duration;

use sonicmux::backend::{BackendError, BackendReport, IoError, IoErrorKind};
use sonicmux::execution::{
    cleanup_or, validate_output, validate_staging_file, Action, EntryFacts, Event, ExecutionError,
    JobReport, Transaction,
};
use sonicmux::ffmpeg::domain_crate_name;
use sonicmux::media::{FormatInfo, MediaInfo};
use sonicmux::model::{ChannelCount, MediaTimestamp, Metadata, StreamIndex, TimeBase};
use sonicmux::path::FilePath;
use sonicmux::plan::{build, JobPlan, OutputMode, PlanOutcome, PlanningPolicy, RequestedAction};
use sonicmux::policy::{CompatibilityPolicy, ProfileName};
use sonicmux::runtime::application::{
    inspect_existing_output, inspect_output_entry, ExistingOutputOutcome,
};
use sonicmux::runtime::config::{
    build_target, check_config_file, environment_config, file_config, find_layout,
    load_effective_config, merge_config, parse_bitrate, select_config_path, ConfigError,
    ConfigPath, ConfigSource, DefaultConfig, EnvironmentText, EnvironmentValues, FileConfig,
    PartialConfig, ProfileFile, UnknownCodecFile,
};
use sonicmux::runtime::discovery::{
    glob_pattern, has_glob, inspect_root, inspect_target, walk_depth, Discovery, DiscoveryError,
    DiscoveryRequest, MatchFinding, RootFacts, RootFinding, RootStep, WalkStep,
};
use sonicmux::runtime::error::RuntimeError;
use sonicmux::runtime::observability::{tracing_filter, DEFAULT_FILTER};
use sonicmux::runtime::application_layers;
use sonicmux::stream::{
    AudioCodec, AudioStream, Channels, Dispositions, DtsProfile, StreamCommon, StreamInfo,
    VideoStream,
};
use sonicmux::table::TextMap;
use sonicmux::target::{Ac3Bitrate, AudioTarget, TargetLayout};
use sonicmux::validate::{codec_frame_samples, within_samples};

#[test]
fn dependency_layers_are_wired_in_order() {
    assert_eq!(
        application_layers(),
        ["sonicmux-core", "sonicmux-ffmpeg", "sonicmux-runtime"]
    );
    assert_eq!(domain_crate_name(), "sonicmux-core");
}

#[test]
fn precedence_and_sources_are_retained() {
    let file = PartialConfig {
        codec: Some("aac".to_owned()),
        ..PartialConfig::default()
    };
    let environment = PartialConfig {
        codec: Some("eac3".to_owned()),
        bitrate: Some("512k".to_owned()),
        ..PartialConfig::default()
    };
    let cli = PartialConfig {
        codec: Some("ac3".to_owned()),
        ..PartialConfig::default()
    };
    let effective = merge_config(DefaultConfig::default(), file, environment, cli)
        .expect("valid merged config");
    assert_eq!(effective.codec.value(), "ac3");
    assert_eq!(effective.codec.source(), ConfigSource::Cli);
    assert_eq!(effective.bitrate.source(), ConfigSource::Environment);
}

#[test]
fn bitrate_suffixes_are_decimal() {
    assert_eq!(parse_bitrate("640k").expect("valid"), 640_000);
    assert_eq!(parse_bitrate("1m").expect("valid"), 1_000_000);
}

#[test]
fn bitrates_that_are_no_numbers_are_refused() {
    assert_eq!(parse_bitrate("96000").expect("valid"), 96_000);
    assert!(parse_bitrate("fast").is_err());
    assert!(parse_bitrate("").is_err());
    assert!(parse_bitrate("18446744073709551615k").is_err());
}

fn empty_file() -> FileConfig {
    FileConfig {
        version: Some(1),
        profile: None,
        codec: None,
        bitrate: None,
        channels: None,
        mode: None,
        ffmpeg_path: None,
        output_directory: None,
        profiles: TextMap::new(),
    }
}

fn one_profile(name: &str) -> TextMap<ProfileFile> {
    let mut profiles = TextMap::new();
    profiles.insert(
        name.to_owned(),
        ProfileFile { unknown_codec: UnknownCodecFile::Reject, codecs: TextMap::new() },
    );
    profiles
}

#[test]
fn strict_file_rejects_unknown_keys_and_builtin_profile_collisions() {
    let mut file = empty_file();
    file.profiles = one_profile("samsung");
    assert!(file_config(file).is_err());
    let mut file = empty_file();
    file.profiles = one_profile("bedroom");
    let settings = file_config(file).expect("the name is free");
    let effective = merge_config(
        DefaultConfig::default(),
        settings,
        PartialConfig::default(),
        PartialConfig { profile: Some("bedroom".to_owned()), ..PartialConfig::default() },
    )
    .expect("the profile exists");
    assert!(effective.compatibility_policy().is_ok());
    assert!(effective.profile_names().contains(&"bedroom"));
}

#[test]
fn configuration_faults_are_told_apart() {
    let mut file = empty_file();
    file.version = Some(2);
    assert_eq!(file_config(file), Err(ConfigError::UnsupportedVersion { version: 2 }));

    let with = |change: fn(&mut PartialConfig)| {
        let mut cli = PartialConfig::default();
        change(&mut cli);
        merge_config(
            DefaultConfig::default(),
            PartialConfig::default(),
            PartialConfig::default(),
            cli,
        )
    };
    assert!(matches!(
        with(|c| c.profile = Some("none-such".to_owned())),
        Err(ConfigError::UnknownProfile { name }) if name == "none-such"
    ));
    assert!(matches!(
        with(|c| c.color = Some("blue".to_owned())),
        Err(ConfigError::InvalidValue { field: "color", .. })
    ));
    assert!(with(|c| c.mode = Some("sideways".to_owned())).is_err());
    assert!(with(|c| c.bitrate = Some("1".to_owned())).is_err());
    let plain = with(|_| ()).expect("the built-in settings are valid");
    assert_eq!(plain.output_mode(), Ok(OutputMode::Add));
    assert_eq!(plain.color.source(), ConfigSource::Default);
    assert_eq!(ConfigSource::File.show(), "config");
}

#[test]
fn targets_are_built_from_texts() {
    assert_eq!(find_layout("stereo"), Some(TargetLayout::Stereo));
    assert_eq!(find_layout("quad"), None);
    assert_eq!(
        build_target("ac3", "448k", "stereo"),
        Ok(AudioTarget::Ac3 {
            bitrate: Ac3Bitrate::new(448_000).expect("bitrate is valid"),
            layout: TargetLayout::Stereo,
        })
    );
    assert!(build_target("opus", "448k", "stereo").is_err());
}

#[test]
fn configuration_is_found_where_it_is_named_first() {
    let named = Some(FilePath::from_text("/a.toml"));
    let other = Some(FilePath::from_text("/b.toml"));
    let platform = Some(FilePath::from_text("/home/.config/sonicmux"));
    assert_eq!(
        select_config_path(named.clone(), other.clone(), platform.clone()),
        Ok(ConfigPath { path: FilePath::from_text("/a.toml"), required: true })
    );
    assert_eq!(
        select_config_path(None, other, platform.clone()),
        Ok(ConfigPath { path: FilePath::from_text("/b.toml"), required: true })
    );
    assert_eq!(
        select_config_path(None, None, platform),
        Ok(ConfigPath {
            path: FilePath::from_text("/home/.config/sonicmux/config.toml"),
            required: false,
        })
    );
    assert_eq!(select_config_path(None, None, None), Err(ConfigError::NoPlatformDirectory));
}

#[test]
fn only_small_regular_files_are_configuration() {
    let optional = ConfigPath { path: FilePath::from_text("/c.toml"), required: false };
    let required = ConfigPath { path: FilePath::from_text("/c.toml"), required: true };
    let absent = || Err(IoError::new(IoErrorKind::NotFound, "no such file".to_owned()));
    let facts = |length| Ok(EntryFacts { symlink: false, file: true, length });
    assert_eq!(check_config_file(&optional, absent()), Ok(false));
    assert!(matches!(check_config_file(&required, absent()), Err(ConfigError::Read { .. })));
    assert_eq!(check_config_file(&required, facts(1_048_576)), Ok(true));
    assert!(matches!(
        check_config_file(&required, facts(1_048_577)),
        Err(ConfigError::TooLarge { .. })
    ));
    assert!(matches!(
        check_config_file(&required, Ok(EntryFacts { symlink: true, file: true, length: 1 })),
        Err(ConfigError::NotRegular { .. })
    ));
}

fn no_variables() -> EnvironmentValues {
    EnvironmentValues {
        profile: EnvironmentText::Absent,
        codec: EnvironmentText::Absent,
        bitrate: EnvironmentText::Absent,
        channels: EnvironmentText::Absent,
        mode: EnvironmentText::Absent,
        jobs: EnvironmentText::Absent,
        storage_profile: EnvironmentText::Absent,
        ffmpeg_path: None,
        output_directory: None,
        color: EnvironmentText::Absent,
        log_file: None,
    }
}

#[test]
fn environment_settings_are_texts() {
    let mut values = no_variables();
    values.codec = EnvironmentText::Text("aac".to_owned());
    let settings = environment_config(values).expect("texts are taken");
    assert_eq!(settings.codec, Some("aac".to_owned()));
    assert_eq!(settings.mode, None);
    let mut values = no_variables();
    values.mode = EnvironmentText::NotUnicode;
    assert_eq!(
        environment_config(values),
        Err(ConfigError::InvalidEnvironment { name: "SONICMUX_MODE" })
    );
    assert_eq!(tracing_filter(EnvironmentText::Absent), Ok(DEFAULT_FILTER.to_owned()));
    assert_eq!(tracing_filter(EnvironmentText::Text("debug".to_owned())), Ok("debug".to_owned()));
    assert!(tracing_filter(EnvironmentText::NotUnicode).is_err());
}

#[test]
fn faults_of_the_file_come_first() {
    let mut values = no_variables();
    values.mode = EnvironmentText::NotUnicode;
    let fault = ConfigError::UnsupportedVersion { version: 9 };
    assert_eq!(
        load_effective_config(
            Err(ConfigError::UnsupportedVersion { version: 9 }),
            values,
            PartialConfig::default()
        ),
        Err(fault)
    );
    let effective =
        load_effective_config(Ok(PartialConfig::default()), no_variables(), PartialConfig::default())
            .expect("the built-in settings are valid");
    assert_eq!(effective.codec.source(), ConfigSource::Default);
}

fn request(roots: &[&str]) -> DiscoveryRequest {
    DiscoveryRequest {
        roots: roots.iter().map(|root| FilePath::from_text(root)).collect(),
        recursive: false,
        follow_links: false,
        includes: Vec::new(),
        excludes: Vec::new(),
    }
}

fn names(files: Vec<FilePath>) -> Vec<String> {
    files.iter().map(FilePath::display).collect()
}

const FILE: RootFacts = RootFacts { symlink: false, file: true, directory: false };
const DIRECTORY: RootFacts = RootFacts { symlink: false, file: false, directory: true };
const LINK: RootFacts = RootFacts { symlink: true, file: false, directory: false };

/// A directory in which a walk meets these files.
fn directory(path: &str, files: &[&str]) -> RootFinding {
    RootFinding {
        path: FilePath::from_text(path),
        entry: Ok(DIRECTORY),
        target: Ok(DIRECTORY),
        walk: files
            .iter()
            .map(|file| WalkStep::Entry { path: FilePath::from_text(file), is_file: true })
            .collect(),
    }
}

fn plain_file(path: &str) -> RootFinding {
    RootFinding {
        path: FilePath::from_text(path),
        entry: Ok(FILE),
        target: Ok(FILE),
        walk: Vec::new(),
    }
}

fn search(request: DiscoveryRequest, findings: &[RootFinding]) -> Result<Vec<FilePath>, DiscoveryError> {
    let mut discovery = Discovery::start(request)?;
    for finding in findings {
        discovery = discovery.collect_root(finding)?;
    }
    Ok(discovery.finish())
}

#[test]
fn sorts_deduplicates_and_filters_mkv_files() {
    let media = || directory("/media", &["/media/b.MKV", "/media/a.mkv", "/media/skip.mp4"]);
    let files = search(request(&["/media", "/media"]), &[media(), media()])
        .expect("discovery succeeds");
    assert_eq!(files.len(), 2);
    assert_eq!(names(files), vec!["/media/a.mkv"]
        .into_iter()
        .chain(vec!["/media/b.MKV"])
        .collect::<Vec<_>>());
}

#[test]
fn recursive_depth_and_unmatched_globs_are_explicit() {
    assert_eq!(walk_depth(false), 1);
    assert_eq!(walk_depth(true), usize::MAX);
    let root = FilePath::from_text("/media");
    let shallow = RootFinding {
        walk: vec![WalkStep::Entry { path: FilePath::from_text("/media/nested"), is_file: false }],
        ..directory("/media", &[])
    };
    let shallow = search(request(&["/media"]), &[shallow]).expect("shallow discovery succeeds");
    assert!(shallow.is_empty());
    let mut deep = request(&["/media"]);
    deep.recursive = true;
    let found = Discovery::start(deep)
        .expect("filters compile")
        .add_entry(&root, &FilePath::from_text("/media/nested"), false)
        .add_entry(&root, &FilePath::from_text("/media/nested/inside.mkv"), true)
        .finish();
    assert_eq!(names(found), vec!["/media/nested/inside.mkv"]);

    let pattern = glob_pattern(&FilePath::from_text("/media/*.missing.mkv"));
    assert_eq!(pattern, Some("/media/*.missing.mkv".to_owned()));
    let error = Discovery::start(request(&["/media/*.missing.mkv"]))
        .expect("filters compile")
        .collect_matches("/media/*.missing.mkv", &Ok(Vec::new()))
        .map(Discovery::finish);
    assert_eq!(
        error,
        Err(DiscoveryError::UnmatchedGlob { pattern: "/media/*.missing.mkv".to_owned() })
    );
}

#[test]
fn filters_look_below_the_root() {
    let root = FilePath::from_text("/media");
    let mut filtered = request(&["/media"]);
    filtered.includes = vec!["keep/**".to_owned(), "*.mkv".to_owned()];
    filtered.excludes = vec!["**/sample*".to_owned()];
    let found = Discovery::start(filtered)
        .expect("filters compile")
        .add_entry(&root, &FilePath::from_text("/media/keep/a.mkv"), true)
        .add_entry(&root, &FilePath::from_text("/media/keep/sample-a.mkv"), true)
        .add_file(&FilePath::from_text("/elsewhere/b.mkv"))
        .add_file(&FilePath::from_text("/elsewhere/sample.mkv"))
        .finish();
    assert_eq!(names(found), vec!["/elsewhere/b.mkv", "/media/keep/a.mkv"]);
    let mut broken = request(&["/media"]);
    broken.includes = vec!["[".to_owned()];
    assert!(matches!(
        Discovery::start(broken),
        Err(DiscoveryError::InvalidGlob { kind: "include", .. })
    ));
    let mut broken = request(&["/media"]);
    broken.excludes = vec!["{a".to_owned()];
    assert!(matches!(
        Discovery::start(broken),
        Err(DiscoveryError::InvalidGlob { kind: "exclude", .. })
    ));
    assert!(matches!(Discovery::start(request(&[])), Err(DiscoveryError::Empty)));
}

#[test]
fn inputs_that_are_no_text_are_told_apart() {
    let first = FilePath::from_bytes(vec![b'/', b'm', b'/', 0xfe, b'.', b'm', b'k', b'v']);
    let second = FilePath::from_bytes(vec![b'/', b'm', b'/', 0xff, b'.', b'm', b'k', b'v']);
    let root = FilePath::from_text("/m");
    let found = Discovery::start(request(&["/m"]))
        .expect("filters compile")
        .add_entry(&root, &second, true)
        .add_entry(&root, &first, true)
        .add_entry(&root, &second, true)
        .finish();
    assert_eq!(found, vec![first, second]);
    assert_eq!(glob_pattern(&FilePath::from_bytes(vec![b'*', 0xff])), None);
}

#[test]
fn roots_are_inspected_before_they_are_taken() {
    let file = RootFacts { symlink: false, file: true, directory: false };
    let directory = RootFacts { symlink: false, file: false, directory: true };
    let link = RootFacts { symlink: true, file: false, directory: false };
    let mkv = FilePath::from_text("/a.mkv");
    let text = FilePath::from_text("/a.txt");
    assert_eq!(inspect_root(&mkv, Ok(file), false), Ok(RootStep::File));
    assert_eq!(inspect_root(&text, Ok(directory), false), Ok(RootStep::Directory));
    assert_eq!(
        inspect_root(&text, Ok(file), false),
        Err(DiscoveryError::Unsupported { path: text.clone() })
    );
    assert_eq!(
        inspect_root(&mkv, Ok(link), false),
        Err(DiscoveryError::Symlink { path: mkv.clone() })
    );
    assert_eq!(inspect_root(&mkv, Ok(link), true), Ok(RootStep::FollowLink));
    assert_eq!(inspect_target(&mkv, Ok(file)), Ok(RootStep::File));
    let missing = || IoError::new(IoErrorKind::NotFound, "gone".to_owned());
    assert_eq!(
        inspect_target(&mkv, Err(missing())),
        Err(DiscoveryError::Inspect { path: mkv.clone(), source: missing() })
    );
    assert!(has_glob("*.mkv") && has_glob("a?") && has_glob("[ab]") && !has_glob("plain"));
}

fn common(index: u32, codec: &str) -> StreamCommon {
    StreamCommon::new(StreamIndex::new(index), codec).expect("codec is valid")
}

fn media(path: &str, codec_name: &str, codec: AudioCodec, title: &str) -> MediaInfo {
    let video = StreamInfo::Video(VideoStream::new(common(0, "hevc")));
    let mut metadata = Metadata::default();
    metadata.insert("language", "eng").expect("metadata is valid");
    metadata.insert("title", title).expect("metadata is valid");
    let mut flags = TextMap::new();
    flags.insert("default".to_owned(), true);
    let audio = StreamInfo::Audio(AudioStream::new(
        common(1, codec_name)
            .with_metadata(metadata)
            .with_dispositions(Dispositions::from_flags(flags)),
        codec,
        Channels::new(ChannelCount::new(6).expect("channels are valid"), None),
        None,
    ));
    MediaInfo::new(
        FilePath::from_text(path),
        FormatInfo::new(vec!["matroska".to_owned()]).expect("format is valid"),
        vec![video, audio],
        Vec::new(),
    )
    .expect("media is valid")
}

fn output_media(valid_codec: bool) -> MediaInfo {
    if valid_codec {
        media("/movies/movie.sonicmux.mkv", "ac3", AudioCodec::Ac3, "Main [AC-3 5.1]")
    } else {
        media("/movies/movie.sonicmux.mkv", "aac", AudioCodec::Aac, "Main [AC-3 5.1]")
    }
}

fn job_plan(output: &str) -> JobPlan {
    let policy = PlanningPolicy::new(
        CompatibilityPolicy::for_profile(ProfileName::GenericTv),
        AudioTarget::Ac3 {
            bitrate: Ac3Bitrate::new(640_000).expect("bitrate is valid"),
            layout: TargetLayout::KeepUpTo51,
        },
        OutputMode::Replace,
        RequestedAction::Convert,
        FilePath::from_text(output),
    );
    let source = media("/movies/movie.mkv", "dts", AudioCodec::Dts(DtsProfile::Core), "Main");
    match build(&source, &policy).expect("plan builds") {
        PlanOutcome::Execute(plan) => plan,
        PlanOutcome::Skip(reason) => panic!("unexpected skip: {reason:?}"),
        _ => panic!("unexpected outcome"),
    }
}

/// A file system and a backend of which a test decides how they behave.
#[derive(Clone, Copy, PartialEq)]
enum Behavior {
    Success,
    Fail,
    Cancel,
    InvalidOutput,
    ProbeFail,
    WrongCodec,
    RaceDestination,
    Exists,
    Relative,
    SyncFail,
    NoParent,
    MissingParent,
    UnreadableParent,
    LostDirectory,
    LostInspection,
    LostSync,
    LostCommit,
}

struct Run {
    result: Result<JobReport, ExecutionError>,
    executed: bool,
    committed: Option<(FilePath, FilePath)>,
    cleaned_up: bool,
    staged_in: Option<FilePath>,
}

fn gone() -> IoError {
    IoError::new(IoErrorKind::NotFound, "no such file".to_owned())
}

fn run(behavior: Behavior, output: &str) -> Run {
    let mut run = Run {
        result: Err(ExecutionError::Cancelled),
        executed: false,
        committed: None,
        cleaned_up: false,
        staged_in: None,
    };
    let (mut transaction, mut action) = Transaction::start(job_plan(output), false);
    loop {
        let event = match action {
            Action::ReadCurrentDirectory => match behavior {
                Behavior::LostDirectory => Event::TaskFailed("panicked".to_owned()),
                _ => Event::CurrentDirectory(Ok(FilePath::from_text("/movies"))),
            },
            Action::InspectOutput(_) => Event::OutputEntry(if behavior == Behavior::Exists {
                Ok(())
            } else {
                Err(gone())
            }),
            Action::InspectParent(_) => Event::ParentEntry(match behavior {
                Behavior::MissingParent => Err(gone()),
                Behavior::UnreadableParent => {
                    Err(IoError::new(IoErrorKind::Other, "permission denied".to_owned()))
                }
                _ => Ok(behavior != Behavior::NoParent),
            }),
            Action::CreateStaging(directory) => {
                let staging = directory.join(&FilePath::from_text(".sonicmux-1/movie.mkv"));
                run.staged_in = Some(directory);
                Event::StagingCreated(Ok(staging))
            }
            Action::Execute(_) => {
                run.executed = true;
                Event::Executed(match behavior {
                    Behavior::Fail => {
                        Err(BackendError::Execute { source: "mock failure".to_owned() })
                    }
                    Behavior::Cancel => Err(BackendError::Cancelled),
                    _ => Ok(BackendReport::new(Duration::from_millis(1), None, Vec::new())),
                })
            }
            Action::InspectStaging(_) if behavior == Behavior::LostInspection => {
                Event::TaskFailed("panicked".to_owned())
            }
            Action::InspectStaging(_) => {
                Event::StagingEntry(if behavior == Behavior::InvalidOutput {
                    Err(gone())
                } else {
                    Ok(EntryFacts { symlink: false, file: true, length: 13 })
                })
            }
            Action::Probe(path) => Event::Probed(if behavior == Behavior::ProbeFail {
                Err(BackendError::Probe { path, source: "mock probe failure".to_owned() })
            } else {
                Ok(output_media(behavior != Behavior::WrongCodec))
            }),
            Action::Sync(_) if behavior == Behavior::LostSync => {
                Event::TaskFailed("panicked".to_owned())
            }
            Action::Sync(_) => Event::Synced(if behavior == Behavior::SyncFail {
                Err(IoError::new(IoErrorKind::Other, "disk full".to_owned()))
            } else {
                Ok(())
            }),
            Action::Commit { .. } if behavior == Behavior::LostCommit => {
                Event::TaskFailed("panicked".to_owned())
            }
            Action::Commit { from, to } => {
                if behavior == Behavior::RaceDestination {
                    Event::Committed(Err(IoError::new(
                        IoErrorKind::AlreadyExists,
                        "exists".to_owned(),
                    )))
                } else {
                    run.committed = Some((from, to));
                    Event::Committed(Ok(()))
                }
            }
            Action::RemoveDirectory => Event::DirectoryRemoved(Ok(())),
            Action::CleanUp => {
                run.cleaned_up = true;
                Event::CleanedUp(Ok(()))
            }
            Action::Wait => panic!("every event belongs to an action"),
            Action::Finish(result) => {
                run.result = result;
                return run;
            }
        };
        let next = transaction.advance(event);
        transaction = next.0;
        action = next.1;
    }
}

#[test]
fn encoded_start_accepts_one_codec_frame_of_encoder_priming() {
    let milliseconds = TimeBase::new(1, 1_000).expect("time base is valid");
    let expected = MediaTimestamp::new(0, milliseconds);
    let five_ms_early = MediaTimestamp::new(-5, milliseconds);
    let thirty_three_ms_early = MediaTimestamp::new(-33, milliseconds);
    let frame_samples = codec_frame_samples("AC-3");

    assert!(within_samples(expected, five_ms_early, 48_000, frame_samples));
    assert!(!within_samples(expected, thirty_three_ms_early, 48_000, frame_samples));
}

#[test]
fn success_validates_and_atomically_publishes() {
    let run = run(Behavior::Success, "/movies/movie.sonicmux.mkv");
    let report = run.result.expect("execution succeeds");
    let output = FilePath::from_text("/movies/movie.sonicmux.mkv");
    assert_eq!(report.output(), &output);
    let (from, to) = run.committed.expect("the output was published");
    assert_eq!(to, output);
    assert_ne!(from, output);
    assert_eq!(run.staged_in, Some(FilePath::from_text("/movies")));
    assert!(report.warnings().is_empty());
    assert_eq!(report.backend().elapsed(), Duration::from_millis(1));
}

#[test]
fn relative_outputs_are_made_absolute() {
    let run = run(Behavior::Relative, "movie.sonicmux.mkv");
    let report = run.result.expect("execution succeeds");
    assert_eq!(report.output(), &FilePath::from_text("/movies/movie.sonicmux.mkv"));
}

#[test]
fn existing_destination_prevents_backend_execution() {
    let run = run(Behavior::Exists, "/movies/movie.sonicmux.mkv");
    assert!(matches!(run.result, Err(ExecutionError::OutputExists { .. })));
    assert!(!run.executed);
}

#[test]
fn competing_destination_is_never_overwritten() {
    let run = run(Behavior::RaceDestination, "/movies/movie.sonicmux.mkv");
    assert!(matches!(run.result, Err(ExecutionError::CommitCollision { .. })));
    assert_eq!(run.committed, None);
    assert!(run.cleaned_up);
}

#[test]
fn backend_failure_and_cancellation_remove_staging() {
    for behavior in [Behavior::Fail, Behavior::Cancel] {
        let run = run(behavior, "/movies/movie.sonicmux.mkv");
        assert!(matches!(
            run.result,
            Err(ExecutionError::Backend(_)) | Err(ExecutionError::Cancelled)
        ));
        assert!(run.executed);
        assert!(run.cleaned_up);
        assert_eq!(run.committed, None);
    }
}

#[test]
fn invalid_staging_and_failed_probe_remove_staging() {
    let invalid = run(Behavior::InvalidOutput, "/movies/movie.sonicmux.mkv");
    assert!(matches!(invalid.result, Err(ExecutionError::InvalidStagingFile)));
    assert!(invalid.cleaned_up);
    let unprobed = run(Behavior::ProbeFail, "/movies/movie.sonicmux.mkv");
    assert!(matches!(unprobed.result, Err(ExecutionError::Backend(_))));
    assert!(unprobed.cleaned_up);
    assert_eq!(invalid.committed, None);
    assert_eq!(unprobed.committed, None);
}

#[test]
fn validation_mismatch_removes_staging_and_final() {
    let run = run(Behavior::WrongCodec, "/movies/movie.sonicmux.mkv");
    let error = run.result.expect_err("validation fails");
    assert!(error.validation_mismatches().is_some());
    assert!(run.cleaned_up);
    assert_eq!(run.committed, None);
}

#[test]
fn nothing_is_published_before_it_is_on_disk() {
    let unsynced = run(Behavior::SyncFail, "/movies/movie.sonicmux.mkv");
    assert!(matches!(unsynced.result, Err(ExecutionError::Sync { .. })));
    assert_eq!(unsynced.committed, None);
    assert!(unsynced.cleaned_up);
    let astray = run(Behavior::NoParent, "/movies/movie.sonicmux.mkv");
    assert!(matches!(astray.result, Err(ExecutionError::InvalidOutputParent { .. })));
    assert!(!astray.executed);
}

#[test]
fn cancelled_transactions_do_nothing() {
    let (transaction, action) = Transaction::start(job_plan("/movies/out.mkv"), true);
    assert_eq!(action, Action::Finish(Err(ExecutionError::Cancelled)));
    let (_, action) = transaction.advance(Event::Synced(Ok(())));
    assert_eq!(action, Action::Wait);
}

#[test]
fn failed_cleanups_keep_the_first_failure() {
    assert_eq!(
        cleanup_or(ExecutionError::InvalidStagingFile, Ok(())),
        ExecutionError::InvalidStagingFile
    );
    assert!(matches!(
        cleanup_or(ExecutionError::InvalidStagingFile, Err(gone())),
        ExecutionError::Cleanup { primary, .. } if *primary == ExecutionError::InvalidStagingFile
    ));
}

#[test]
fn staging_files_are_regular_and_hold_something() {
    let facts = |symlink, file, length| Ok(EntryFacts { symlink, file, length });
    assert!(validate_staging_file(&facts(false, true, 1)).is_ok());
    assert!(validate_staging_file(&facts(false, true, 0)).is_err());
    assert!(validate_staging_file(&facts(true, true, 1)).is_err());
    assert!(validate_staging_file(&facts(false, false, 1)).is_err());
    assert!(validate_staging_file(&Err(gone())).is_err());
}

#[test]
fn outputs_that_are_there_already_are_compared() {
    let plan = job_plan("/movies/movie.sonicmux.mkv");
    assert!(validate_output(&plan, &output_media(true)).is_ok());
    assert_eq!(
        inspect_existing_output(&plan, Ok(output_media(true))),
        Ok(ExistingOutputOutcome::Valid)
    );
    assert!(matches!(
        inspect_existing_output(&plan, Ok(output_media(false))),
        Ok(ExistingOutputOutcome::Conflict { mismatches }) if !mismatches.is_empty()
    ));
    assert_eq!(inspect_output_entry(Err(gone())), Ok(Some(ExistingOutputOutcome::Absent)));
    assert_eq!(
        inspect_output_entry(Ok(EntryFacts { symlink: false, file: true, length: 9 })),
        Ok(None)
    );
    assert!(matches!(
        inspect_output_entry(Ok(EntryFacts { symlink: true, file: false, length: 9 })),
        Ok(Some(ExistingOutputOutcome::Conflict { .. }))
    ));
    let refused = IoError::new(IoErrorKind::Other, "denied".to_owned());
    assert!(matches!(
        inspect_output_entry(Err(refused)),
        Err(RuntimeError::InspectOutput { .. })
    ));
}

#[test]
fn cancellation_of_the_backend_stays_typed() {
    let plan = job_plan("/movies/movie.sonicmux.mkv");
    assert!(inspect_existing_output(&plan, Ok(output_media(true))).is_ok());
    assert_eq!(
        inspect_existing_output(&plan, Err(BackendError::Cancelled)),
        Err(RuntimeError::Backend(BackendError::Cancelled))
    );
}

#[test]
fn missing_parents_are_refused_as_such() {
    let missing = run(Behavior::MissingParent, "/movies/movie.sonicmux.mkv");
    let error = missing.result.expect_err("the parent is missing");
    assert_eq!(
        error,
        ExecutionError::InvalidOutputParent { path: FilePath::from_text("/movies") }
    );
    assert_eq!(error.message(), "output parent is not an existing directory: /movies");
    assert!(!missing.executed);
    assert_eq!(missing.staged_in, None);

    let unreadable = run(Behavior::UnreadableParent, "/movies/movie.sonicmux.mkv");
    assert_eq!(
        unreadable.result.expect_err("the parent cannot be read").message(),
        "failed to inspect output path: permission denied"
    );
}

#[test]
fn lost_tasks_end_the_transaction() {
    let resolving = run(Behavior::LostDirectory, "movie.sonicmux.mkv");
    assert_eq!(
        resolving.result.expect_err("the task was lost"),
        ExecutionError::BlockingTask { message: "panicked".to_owned() }
    );
    assert!(!resolving.cleaned_up);

    let inspecting = run(Behavior::LostInspection, "/movies/movie.sonicmux.mkv");
    assert_eq!(
        inspecting.result.expect_err("the task was lost"),
        ExecutionError::InvalidStagingFile
    );
    assert!(inspecting.cleaned_up);
    assert_eq!(inspecting.committed, None);

    let syncing = run(Behavior::LostSync, "/movies/movie.sonicmux.mkv");
    assert_eq!(
        syncing.result.expect_err("the task was lost").message(),
        "failed to synchronize staging output: panicked"
    );
    assert!(syncing.cleaned_up);
    assert_eq!(syncing.committed, None);

    let committing = run(Behavior::LostCommit, "/movies/movie.sonicmux.mkv");
    assert_eq!(
        committing.result.expect_err("the task was lost"),
        ExecutionError::BlockingTask { message: "panicked".to_owned() }
    );
    assert!(committing.cleaned_up);
}

#[test]
fn order_and_repetition_of_roots_make_no_difference() {
    let first = || directory("/media", &["/media/b.mkv", "/media/a.mkv"]);
    let second = || plain_file("/elsewhere/c.mkv");
    let one = search(request(&["/media", "/elsewhere/c.mkv"]), &[first(), second()]);
    let other = search(
        request(&["/elsewhere/c.mkv", "/media", "/elsewhere/c.mkv"]),
        &[second(), first(), second()],
    );
    assert_eq!(one, other);
    assert_eq!(
        names(one.expect("discovery succeeds")),
        vec!["/elsewhere/c.mkv", "/media/a.mkv", "/media/b.mkv"]
    );
    let spelt = search(request(&["/media//", "/media"]), &[
        directory("/media//", &["/media//a.mkv"]),
        directory("/media", &["/media/a.mkv"]),
    ])
    .expect("discovery succeeds");
    assert_eq!(spelt, vec![FilePath::from_text("/media/a.mkv")]);
    assert!(matches!(search(request(&[]), &[]), Err(DiscoveryError::Empty)));
}

#[test]
fn roots_fail_as_what_they_are() {
    let text = search(request(&["/a.txt"]), &[plain_file("/a.txt")]);
    assert_eq!(text, Err(DiscoveryError::Unsupported { path: FilePath::from_text("/a.txt") }));

    let link = || RootFinding { entry: Ok(LINK), ..plain_file("/a.mkv") };
    assert_eq!(
        search(request(&["/a.mkv"]), &[link()]),
        Err(DiscoveryError::Symlink { path: FilePath::from_text("/a.mkv") })
    );
    let mut following = request(&["/a.mkv"]);
    following.follow_links = true;
    assert_eq!(
        search(following.clone(), &[link()]),
        Ok(vec![FilePath::from_text("/a.mkv")])
    );
    assert_eq!(
        search(following, &[RootFinding { target: Err(gone()), ..link() }]),
        Err(DiscoveryError::Inspect { path: FilePath::from_text("/a.mkv"), source: gone() })
    );

    let torn = RootFinding {
        walk: vec![
            WalkStep::Entry { path: FilePath::from_text("/media/a.mkv"), is_file: true },
            WalkStep::Failed { reason: "permission denied".to_owned() },
        ],
        ..directory("/media", &[])
    };
    assert_eq!(
        search(request(&["/media"]), &[torn]),
        Err(DiscoveryError::Traverse {
            path: FilePath::from_text("/media"),
            reason: "permission denied".to_owned(),
        })
    );
}

#[test]
fn matches_of_patterns_are_roots() {
    let start = || Discovery::start(request(&["/media/*"])).expect("filters compile");
    let found = start()
        .collect_matches(
            "/media/*",
            &Ok(vec![
                MatchFinding::Found(directory("/media/b", &["/media/b/x.mkv"])),
                MatchFinding::Found(plain_file("/media/a.mkv")),
            ]),
        )
        .expect("the matches are inputs")
        .finish();
    assert_eq!(names(found), vec!["/media/a.mkv", "/media/b/x.mkv"]);

    let unreadable = start().collect_matches(
        "/media/*",
        &Ok(vec![
            MatchFinding::Found(plain_file("/media/a.mkv")),
            MatchFinding::Failed { path: FilePath::from_text("/media/c"), source: gone() },
            MatchFinding::Found(plain_file("/media/d.txt")),
        ]),
    );
    assert_eq!(
        unreadable.map(Discovery::finish),
        Err(DiscoveryError::Inspect { path: FilePath::from_text("/media/c"), source: gone() })
    );

    let refused = start().collect_matches("/media/[", &Err("unclosed class".to_owned()));
    assert_eq!(
        refused.map(Discovery::finish).expect_err("the pattern is none").message(),
        "invalid input glob `/media/[`: unclosed class"
    );
}

#[test]
fn paths_are_equal_by_their_components() {
    assert_eq!(FilePath::from_text("a//b"), FilePath::from_text("a/b/."));
    assert_ne!(FilePath::from_text("/a/b"), FilePath::from_text("a/b"));
    assert_ne!(FilePath::from_text("a/../b"), FilePath::from_text("b"));
    assert_ne!(request(&["a//b"]), request(&["a/b"]));
    assert_eq!(request(&["a//b"]), request(&["a//b"]));
}

#[test]
fn jobs_and_storage_are_sourced_settings() {
    let merged = |environment: PartialConfig, cli: PartialConfig| {
        merge_config(DefaultConfig::default(), PartialConfig::default(), environment, cli)
    };
    let storage = |value: &str| PartialConfig {
        storage_profile: Some(value.to_owned()),
        ..PartialConfig::default()
    };
    let jobs = |value: usize| PartialConfig { jobs: Some(value), ..PartialConfig::default() };

    let built_in = merged(PartialConfig::default(), PartialConfig::default()).expect("valid");
    assert_eq!(built_in.jobs.source(), ConfigSource::Default);
    assert_eq!(built_in.storage_profile.value(), "balanced");

    let slow = merged(storage("hdd"), PartialConfig::default()).expect("valid");
    assert_eq!((*slow.jobs.value(), slow.jobs.source()), (1, ConfigSource::Default));
    assert_eq!(slow.storage_profile.source(), ConfigSource::Environment);
    let asked = merged(storage("hdd"), jobs(3)).expect("valid");
    assert_eq!((*asked.jobs.value(), asked.jobs.source()), (3, ConfigSource::Cli));
    assert_eq!(*merged(jobs(65), jobs(64)).expect("valid").jobs.value(), 64);

    for refused in [0, 65] {
        assert!(matches!(
            merged(jobs(refused), PartialConfig::default()),
            Err(ConfigError::InvalidValue { field: "jobs", .. })
        ));
    }
    assert!(matches!(
        merged(storage("tape"), PartialConfig::default()),
        Err(ConfigError::InvalidValue { field: "storage-profile", .. })
    ));

    let mut values = no_variables();
    values.jobs = EnvironmentText::NotUnicode;
    assert_eq!(
        environment_config(values),
        Err(ConfigError::InvalidEnvironment { name: "SONICMUX_JOBS" })
    );
    let mut values = no_variables();
    values.storage_profile = EnvironmentText::NotUnicode;
    assert_eq!(
        environment_config(values),
        Err(ConfigError::InvalidEnvironment { name: "SONICMUX_STORAGE_PROFILE" })
    );
    let mut values = no_variables();
    values.jobs = EnvironmentText::Text("4".to_owned());
    values.storage_profile = EnvironmentText::Text("nvme".to_owned());
    let settings = environment_config(values).expect("texts are taken");
    assert_eq!((settings.jobs, settings.storage_profile), (Some(4), Some("nvme".to_owned())));
}
