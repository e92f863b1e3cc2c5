//! The command line, the terminal and the desktop.
use sonicmux::backend::{
    BackendCapabilities, BackendError, BackendToolInfo, BackendToolRole, CapabilityCheck,
    MediaCapability,
};
use sonicmux::cli::args::{
    assign_outputs, parse_jobs, parse_selection, AudioArgs, ColorChoice, DiscoveryArgs,
    StorageProfileChoice,
};
use sonicmux::cli::dto::{encode_hex, DoctorDto, PathDto, PlanDto, ProbeDto};
use sonicmux::cli::human;
use sonicmux::ffmpeg::discovery::{resolve_path, resolve_toolchain_hybrid, ResolvedToolchain};
use sonicmux::gui::dto::{is_menu_action, AcceptedDto, AppPhaseDto, SettingsDto};
use sonicmux::gui::service::{
    validate_settings, Session, ToolchainSearch, GUI_SCHEMA, RETRY_NEEDS_TOOLS, TOOLS_MISSING,
};
use sonicmux::media::{FormatInfo, MediaInfo};
use sonicmux::model::{ChannelCount, DurationMicros, Metadata, StreamIndex};
use sonicmux::path::FilePath;
use sonicmux::policy::{CompatibilityPolicy, ProfileName};
use sonicmux::queue::{enqueue, Interface, QueueItem, QueueStatus};
use sonicmux::runtime::application::ExistingOutputOutcome;
use sonicmux::runtime::batch::{BatchReport, BatchRequest, SchedulerError};
use sonicmux::runtime::config::{
    load_effective_config, merge_config, ConfigSource, DefaultConfig, EffectiveConfig,
    EnvironmentText, EnvironmentValues, PartialConfig,
};
use sonicmux::runtime::discovery::{DiscoveryError, DiscoveryRequest};
use sonicmux::runtime::error::RuntimeError;
use sonicmux::runtime::prepare::{
    finish_preparation, plan_file, AudioSelectionRequest, FailurePolicy, PreparedResult,
};
use sonicmux::runtime::scheduler::Batch;
use sonicmux::session::{
    append_log, default_output, measure_progress, parse_bitrate, planned_action, ProfileChoice,
};
use sonicmux::stream::{
    AudioCodec, AudioStream, Channels, Dispositions, DtsProfile, StreamCommon, StreamInfo,
    VideoStream,
};
use sonicmux::table::TextMap;
use sonicmux::tui::editor::{
    end_boundary, insert_char, insert_text, next_boundary, previous_boundary, remove_next_char,
    remove_previous_char,
};
use sonicmux::tui::model::{
    AppPhase, Effect, KeyCode, KeyEvent, Model, Msg, Overlay, Screen, LOG_CAPACITY,
};
use sonicmux::tui::settings::{cycle_index, default_bitrate, move_bounded, UiSettings};
use sonicmux::tui::ui::{
    centered_rect, footer_help, format_duration, header_text, is_too_small, log_lines,
    overall_label, phase_label, popup, probe_jobs, queue_cells, too_small_text, track_cells,
    use_color, Area,
};

fn config() -> EffectiveConfig {
    merge_config(
        DefaultConfig::default(),
        PartialConfig::default(),
        PartialConfig::default(),
        PartialConfig::default(),
    )
    .expect("default config is valid")
}

fn model() -> Model {
    let settings = UiSettings::from_config(&config(), false, None)
        .expect("default settings are valid");
    Model::new(
        settings,
        DiscoveryRequest {
            roots: Vec::new(),
            recursive: false,
            follow_links: false,
            includes: Vec::new(),
            excludes: Vec::new(),
        },
        true,
    )
}

fn key(code: KeyCode) -> Msg {
    Msg::Input(KeyEvent::new(code))
}

fn media(path: &FilePath) -> MediaInfo {
    let common = |index, codec| {
        StreamCommon::new(StreamIndex::new(index), codec).expect("codec is valid")
    };
    let mut metadata = Metadata::default();
    metadata.insert("language", "eng").expect("metadata is valid");
    metadata.insert("title", "Main").expect("metadata is valid");
    let mut flags = TextMap::new();
    flags.insert("default".to_owned(), true);
    let audio = StreamInfo::Audio(AudioStream::new(
        common(1, "dts")
            .with_metadata(metadata)
            .with_dispositions(Dispositions::from_flags(flags)),
        AudioCodec::Dts(DtsProfile::HdMasterAudio),
        Channels::new(
            ChannelCount::new(6).expect("channels are valid"),
            Some("5.1(side)".to_owned()),
        ),
        None,
    ));
    MediaInfo::new(
        path.clone(),
        FormatInfo::new(vec!["matroska".to_owned(), "webm".to_owned()])
            .expect("format is valid")
            .with_duration(Some(DurationMicros::new(60_500_000))),
        vec![StreamInfo::Video(VideoStream::new(common(0, "hevc"))), audio],
        Vec::new(),
    )
    .expect("media is valid")
}

#[test]
fn navigation_and_overlays_are_keyboard_complete() {
    let mut model = model();
    model.update(key(KeyCode::Char('4')));
    assert_eq!(model.screen, Screen::Settings);
    model.update(key(KeyCode::Char('?')));
    assert!(matches!(model.overlay, Some(Overlay::Help)));
    model.update(key(KeyCode::Esc));
    assert!(model.overlay.is_none());
    model.update(key(KeyCode::Char('a')));
    model.update(key(KeyCode::Char('\u{444}')));
    model.update(key(KeyCode::Backspace));
    assert!(matches!(
        model.overlay,
        Some(Overlay::PathEditor { ref value, cursor: 0 }) if value.is_empty()
    ));
}

#[test]
fn discovery_deduplicates_and_selection_stays_bounded() {
    let mut model = model();
    let path = FilePath::from_text("movie.mkv");
    let effects = model.update(Msg::InputsDiscovered(Ok(vec![path.clone(), path])));
    assert_eq!(model.queue.len(), 1);
    assert_eq!(effects.len(), 1);
    model.update(key(KeyCode::Char('G')));
    model.update(key(KeyCode::Down));
    assert_eq!(model.selected, Some(0));
    model.update(key(KeyCode::Char('d')));
    assert!(model.queue.is_empty());
    assert_eq!(model.selected, None);
}

#[test]
fn active_batch_requires_orderly_cancellation() {
    let mut model = model();
    model.phase = AppPhase::Running;
    let effects = model.update(key(KeyCode::Char('q')));
    assert!(effects.is_empty());
    assert!(matches!(model.overlay, Some(Overlay::ConfirmCancel)));
    let effects = model.update(key(KeyCode::Char('y')));
    assert!(matches!(effects.as_slice(), [Effect::CancelBatch]));
    assert_eq!(model.phase, AppPhase::Cancelling);
    assert!(!model.should_quit);
}

#[test]
fn background_failure_is_visible_and_cancels_active_work() {
    let mut model = model();
    model.phase = AppPhase::Running;
    let effects = model.update(Msg::TaskFailed("input reader stopped".to_owned()));
    assert!(matches!(effects.as_slice(), [Effect::CancelBatch]));
    assert_eq!(model.phase, AppPhase::Cancelling);
    assert!(matches!(model.overlay, Some(Overlay::Notice(_))));
    assert!(model.logs.back().is_some_and(|line| line.contains("input reader")));
}

#[test]
fn unicode_editor_uses_character_boundaries() {
    let mut value = "a\u{44f}b".to_owned();
    let mut cursor = "a\u{44f}".len();
    remove_previous_char(&mut value, &mut cursor);
    assert_eq!(value, "ab");
    assert_eq!(cursor, 1);
    insert_char(&mut value, &mut cursor, '\u{754c}');
    assert_eq!(value, "a\u{754c}b");
}

#[test]
fn editing_can_be_undone() {
    let mut value = "ab".to_owned();
    let mut cursor = 1;
    insert_text(&mut value, &mut cursor, "\u{754c}x");
    assert_eq!((value.as_str(), cursor), ("a\u{754c}xb", 5));
    assert_eq!(previous_boundary(&value, cursor), 4);
    assert_eq!(previous_boundary(&value, 4), 1);
    assert_eq!(next_boundary(&value, 1), 4);
    assert_eq!(end_boundary(&value), 6);
    remove_previous_char(&mut value, &mut cursor);
    remove_previous_char(&mut value, &mut cursor);
    assert_eq!((value.as_str(), cursor), ("ab", 1));
    remove_next_char(&mut value, cursor);
    remove_next_char(&mut value, cursor);
    assert_eq!(value, "a");
    remove_next_char(&mut value, 7);
    assert_eq!(value, "a");
}

#[test]
fn startup_effect_preserves_non_unicode_roots() {
    let mut model = model();
    assert!(model.startup_effect().is_none());
    model.discovery_template.roots = vec![FilePath::from_text("movie.mkv")];
    assert!(matches!(model.startup_effect(), Some(Effect::Discover(_))));
    let odd = FilePath::from_bytes(vec![0xff, b'.', b'm', b'k', b'v']);
    model.discovery_template.roots = vec![odd.clone()];
    assert!(matches!(
        model.startup_effect(),
        Some(Effect::Discover(request)) if request.roots == vec![odd]
    ));
}

/// Prepares every file of a dry run, and reports what became of it.
fn dry_run(request: &BatchRequest) -> BatchReport {
    let (mut batch, _) = Batch::start(request);
    loop {
        let (next, admitted, _) = batch.take_next();
        let Some(admission) = admitted else {
            let (next, _) = next.end_preparations();
            return next.finish().0;
        };
        let file = &request.files()[admission.index];
        let result = match plan_file(file, &media(file.input())) {
            Ok(plan) => finish_preparation(plan, ExistingOutputOutcome::Absent, true),
            Err(outcome) => PreparedResult::Terminal(outcome),
        };
        batch = next.prepared(admission.index, result, false).0;
    }
}

#[test]
fn dry_run_reconciles_authoritative_scheduler_report() {
    let input = FilePath::from_text("/in/movie.mkv");
    let mut model = model();
    model.settings.dry_run = true;
    let effects = model.update(Msg::InputsDiscovered(Ok(vec![input.clone()])));
    let id = match effects.as_slice() {
        [Effect::Probe(id, path)] if path == &input => *id,
        other => panic!("unexpected effects: {other:?}"),
    };
    model.update(Msg::ProbeFinished(id, Ok(media(&input))));
    assert_eq!(model.queue[0].status, QueueStatus::Ready);

    let request = model.build_batch().expect("ready queue builds a batch");
    let report = dry_run(&request);
    model.update(Msg::BatchFinished(Ok(report)));

    assert_eq!(model.phase, AppPhase::Idle);
    assert_eq!(model.queue[0].status, QueueStatus::Planned);
    assert!(model.queue[0].error.is_none());
}

fn probed() -> Model {
    let input = FilePath::from_text("/in/movie.mkv");
    let mut model = model();
    model.update(Msg::InputsDiscovered(Ok(vec![input.clone()])));
    let id = model.queue[0].id;
    model.update(Msg::ProbeFinished(id, Ok(media(&input))));
    model
}

#[test]
fn screens_go_round() {
    let mut model = model();
    for _ in 0..4 {
        model.update(key(KeyCode::Tab));
    }
    assert_eq!(model.screen, Screen::Queue);
    model.update(key(KeyCode::BackTab));
    assert_eq!(model.screen, Screen::Settings);
}

#[test]
fn batches_begin_with_what_is_ready() {
    let mut model = probed();
    assert!(matches!(
        model.update(key(KeyCode::Char('s'))).as_slice(),
        [Effect::StartBatch]
    ));
    let request = model.begin_batch().expect("one file is ready");
    assert_eq!(request.len(), 1);
    assert_eq!(request.files()[0].output(), &FilePath::from_text("/in/movie.sonicmux.mkv"));
    assert_eq!(request.options().max_concurrency(), 2);
    assert_eq!(model.active_queue_ids, vec![model.queue[0].id]);

    let mut idle = probed();
    idle.update(key(KeyCode::Char(' ')));
    assert!(!idle.queue[0].enabled);
    assert!(idle.update(key(KeyCode::Char('s'))).is_empty());
    assert!(matches!(idle.overlay, Some(Overlay::Notice(_))));
    idle.settings.jobs = 0;
    assert!(idle.build_batch().is_err());
}

#[test]
fn failures_of_files_are_shown_and_can_be_retried() {
    let input = FilePath::from_text("/in/movie.mkv");
    let mut model = model();
    model.update(Msg::InputsDiscovered(Ok(vec![input.clone()])));
    let id = model.queue[0].id;
    model.update(Msg::ProbeFinished(id, Err(RuntimeError::Backend(BackendError::Cancelled))));
    assert!(model.queue[0].error.is_some());
    assert_ne!(model.queue[0].status, QueueStatus::Ready);
    let effects = model.update(key(KeyCode::Char('r')));
    assert_eq!(effects, vec![Effect::Probe(id, input)]);
    model.update(Msg::InputsDiscovered(Err(DiscoveryError::Empty)));
    assert!(matches!(model.overlay, Some(Overlay::Notice(_))));
}

#[test]
fn quitting_needs_an_idle_session() {
    let mut model = model();
    model.update(key(KeyCode::Char('q')));
    assert!(model.should_quit);
    let mut released = KeyEvent::new(KeyCode::Char('q'));
    released.pressed = false;
    let mut other = self::model();
    other.update(Msg::Input(released));
    assert!(!other.should_quit);
}

#[test]
fn failed_batches_leave_an_idle_session() {
    let mut model = probed();
    model.phase = AppPhase::Running;
    model.update(Msg::BatchFinished(Err(SchedulerError::Supervisor {
        message: "panicked".to_owned(),
    })));
    assert_eq!(model.phase, AppPhase::Idle);
    assert!(matches!(model.overlay, Some(Overlay::Notice(_))));
}

#[test]
fn settings_change_round_and_round() {
    let mut model = model();
    let codec = model.settings.codec.clone();
    model.settings.selected_field = 2;
    for _ in 0..3 {
        model.settings.change(1);
    }
    assert_eq!(model.settings.codec, codec);
    assert_eq!(cycle_index(0, 3, -1), 2);
    assert_eq!(cycle_index(2, 3, 1), 0);
    assert_eq!(move_bounded(0, 3, -1), 0);
    assert_eq!(move_bounded(2, 3, 5), 2);
    assert_eq!(default_bitrate("ac3"), "640k");
    let (label, value) = model.settings.field_label(2);
    assert_eq!((label, value.as_str()), ("Codec", "ac3"));
}

#[test]
fn empty_and_small_layouts_are_actionable() {
    assert!(is_too_small(40, 10));
    assert!(!is_too_small(80, 24));
    assert!(too_small_text(40, 10).contains("needs at least 50x12"));
    assert_eq!(
        too_small_text(40, 10),
        "SonicMux needs at least 50x12 cells.\nCurrent terminal: 40x10"
    );
}

#[test]
fn settings_and_help_keep_textual_navigation() {
    let help = popup(&Overlay::Help);
    assert!(help.content.contains("switch screens"));
    assert!(help.content.contains("cancel and wait for cleanup"));
    let editor = popup(&Overlay::PathEditor { value: "\u{44f}b".to_owned(), cursor: 2 });
    assert!(editor.content.contains("\u{44f}|b"));
    assert_eq!(popup(&Overlay::Notice("Look".to_owned())).content, "Look\n\nEnter or Esc: close");
    assert!(popup(&Overlay::ConfirmCancel).content.contains("keep running"));
}

#[test]
fn cells_are_texts() {
    let mut model = probed();
    let item = &model.queue[0];
    let cells = queue_cells(item, false);
    assert!(cells.iter().any(|cell| cell.contains("movie.mkv")));
    assert!(queue_cells(item, true).len() < cells.len());
    let stream = &media(&item.input).streams()[1].clone();
    assert!(track_cells(stream, &item.plan, false).iter().any(|cell| cell == "eng"));
    assert_eq!(format_duration(61_000_000), "01:01");
    assert_eq!(overall_label(None), "Overall --");
    assert_eq!(overall_label(Some(505)), "Overall 50%");
    assert_eq!(phase_label(AppPhase::Idle), "idle");
    assert!(header_text(&model.settings).contains("generic-tv"));
    assert_ne!(footer_help(60), footer_help(120));
    model.logs.clear();
    model.logs.push_back("one".to_owned());
    model.logs.push_back("two".to_owned());
    assert_eq!(log_lines(&model.logs, 1), vec!["   2  two"]);
}

#[test]
fn windows_are_centered() {
    let area = Area { x: 0, y: 0, width: 80, height: 24 };
    let inner = centered_rect(40, 10, area);
    assert_eq!((inner.x, inner.y, inner.width, inner.height), (20, 7, 40, 10));
    let whole = centered_rect(100, 100, Area { x: 0, y: 0, width: 80, height: 24 });
    assert_eq!((whole.x, whole.y, whole.width, whole.height), (0, 0, 80, 24));
}

#[test]
fn colors_follow_the_setting_unless_they_are_refused() {
    assert!(use_color(false, "always", false));
    assert!(!use_color(true, "always", true));
    assert!(!use_color(false, "never", true));
    assert!(use_color(false, "auto", true));
    assert!(!use_color(false, "auto", false));
    assert_eq!((probe_jobs(0), probe_jobs(3), probe_jobs(9)), (1, 3, 4));
}

#[test]
fn logs_and_progress_stay_in_bounds() {
    let mut model = model();
    for i in 0..LOG_CAPACITY + 5 {
        append_log(&mut model.logs, format!("line {i}"), LOG_CAPACITY);
    }
    assert_eq!(model.logs.len(), LOG_CAPACITY);
    assert_eq!(model.logs.back().map(String::as_str), Some("line 1004"));
    assert_eq!(measure_progress(Some(1), Some(2)), Some(500));
    assert_eq!(measure_progress(Some(9), Some(2)), Some(1_000));
    assert_eq!(measure_progress(Some(9), None), None);
    assert_eq!(measure_progress(Some(9), Some(0)), None);
}

#[test]
fn gui_depends_on_shared_application_layers() {
    assert_eq!(sonicmux::CRATE_NAME, "sonicmux-core");
    assert_eq!(sonicmux::runtime::CRATE_NAME, "sonicmux-runtime");
}

fn settings() -> SettingsDto {
    SettingsDto {
        profile: "generic-tv".to_owned(),
        action: "convert".to_owned(),
        codec: "ac3".to_owned(),
        bitrate: "640k".to_owned(),
        channels: "keep-up-to-5.1".to_owned(),
        mode: "add".to_owned(),
        jobs: 2,
        storage_profile: "balanced".to_owned(),
        failure_policy: "continue".to_owned(),
        dry_run: false,
        output_directory: None,
    }
}

#[test]
fn validates_bounded_session_settings() {
    let profiles = vec![ProfileChoice {
        name: "generic-tv".to_owned(),
        policy: CompatibilityPolicy::for_profile(ProfileName::GenericTv),
    }];
    assert!(validate_settings(&settings(), &profiles).is_ok());

    let mut invalid = settings();
    invalid.jobs = 0;
    assert_eq!(
        validate_settings(&invalid, &profiles),
        Err("jobs must be between 1 and 64".to_owned())
    );
}

#[test]
fn every_setting_is_validated() {
    let profiles = vec![ProfileChoice {
        name: "generic-tv".to_owned(),
        policy: CompatibilityPolicy::for_profile(ProfileName::GenericTv),
    }];
    let refused = |change: fn(&mut SettingsDto)| {
        let mut invalid = settings();
        change(&mut invalid);
        validate_settings(&invalid, &profiles).is_err()
    };
    assert!(refused(|s| s.profile = "none".to_owned()));
    assert!(refused(|s| s.action = "none".to_owned()));
    assert!(refused(|s| s.codec = "none".to_owned()));
    assert!(refused(|s| s.bitrate = "none".to_owned()));
    assert!(refused(|s| s.channels = "none".to_owned()));
    assert!(refused(|s| s.mode = "none".to_owned()));
    assert!(refused(|s| s.storage_profile = "none".to_owned()));
    assert!(refused(|s| s.failure_policy = "none".to_owned()));
    assert!(refused(|s| s.jobs = 65));
    assert!(!refused(|s| s.jobs = 64));
}

#[test]
fn parses_human_bitrates_and_derives_non_replacing_output() {
    assert_eq!(parse_bitrate("640k"), Ok(640_000));
    assert_eq!(parse_bitrate("oops"), Err("invalid bitrate `oops`".to_owned()));
    assert_eq!(
        default_output(&FilePath::from_text("movies/input.mkv"), &None),
        FilePath::from_text("movies/input.sonicmux.mkv")
    );
    assert_eq!(
        default_output(&FilePath::from_text("movies/input.mkv"), &Some(FilePath::from_text("/out"))),
        FilePath::from_text("/out/input.sonicmux.mkv")
    );
}

fn tools() -> Result<ResolvedToolchain, String> {
    resolve_toolchain_hybrid(
        None,
        None,
        resolve_path(
            Some(FilePath::from_text("/bin/ffmpeg")),
            Some(FilePath::from_text("/bin/ffprobe")),
        ),
    )
    .map_err(|error| error.message())
}

fn session() -> Session {
    Session::load(&config(), None, &tools())
}

#[test]
fn sessions_without_tools_ask_for_them() {
    let mut session =
        Session::load(&config(), Some("bad file".to_owned()), &Err("none".to_owned()));
    assert_eq!(session.phase, AppPhaseDto::ToolchainSetup);
    assert!(!session.snapshot().can_start);
    assert!(session.logs.iter().any(|line| line.contains("bad file")));
    assert_eq!(
        session.take_toolchain(&Err("none".to_owned()), ToolchainSearch::System),
        Err("none. Install both FFmpeg and FFprobe, then retry.".to_owned())
    );
    let status =
        session.take_toolchain(&tools(), ToolchainSearch::Chosen).expect("the tools are there");
    assert!(status.available);
    assert_eq!(session.phase, AppPhaseDto::Idle);
    let bootstrap = session.bootstrap("0.1.0");
    assert_eq!((bootstrap.schema, bootstrap.version), (GUI_SCHEMA, "0.1.0"));
    assert_eq!(bootstrap.snapshot.settings, settings());
}

#[test]
fn sessions_take_files_through_a_dry_run() {
    let input = FilePath::from_text("/in/movie.mkv");
    let mut session = session();
    assert_eq!(session.add_roots(Vec::new()), Ok(None));
    let wanted = session
        .add_roots(vec![FilePath::from_text("/in")])
        .expect("the session is idle")
        .expect("something was picked");
    assert_eq!(wanted.roots, vec![FilePath::from_text("/in")]);
    assert_eq!(session.phase, AppPhaseDto::Probing);
    let fresh = session.add_discovered(&vec![input.clone()]);
    assert_eq!(fresh.len(), 1);
    assert!(session.add_discovered(&vec![input.clone()]).is_empty());
    session.apply_probe_result(fresh[0].0, Ok(media(&input)));
    session.finish_probe_phase(true, None);
    assert_eq!(session.phase, AppPhaseDto::Idle);
    assert!(session.can_start());

    let mut wanted = settings();
    wanted.dry_run = true;
    session.update_settings(wanted).expect("the settings are valid");
    assert_eq!(
        session.start_batch(false),
        Err("FFmpeg setup is required before starting".to_owned())
    );
    let request = session.start_batch(true).expect("a file is ready");
    assert_eq!(session.phase, AppPhaseDto::Running);
    assert!(session.remove_items(&vec![fresh[0].0]).is_err());
    assert_eq!(request.options().failure_policy(), FailurePolicy::Continue);
    let report = dry_run(&request);
    session.finish_batch(&report);
    assert_eq!(session.phase, AppPhaseDto::Idle);
    assert_eq!(session.snapshot().queue[0].status, QueueStatus::Planned.as_str());
    assert_eq!(session.snapshot().queue[0].tracks.len(), 2);

    session.remove_items(&vec![fresh[0].0]).expect("the session is idle");
    assert!(session.queue.is_empty());
}

#[test]
fn sessions_cancel_what_runs() {
    let input = FilePath::from_text("/in/movie.mkv");
    let mut session = session();
    assert!(session.cancel_batch().is_err());
    let fresh = session.add_discovered(&vec![input.clone()]);
    session.apply_probe_result(fresh[0].0, Ok(media(&input)));
    session.finish_probe_phase(true, None);
    session.set_item_enabled(fresh[0].0, false).expect("the file is there");
    assert!(session.start_batch(true).is_err());
    session.set_item_enabled(fresh[0].0, true).expect("the file is there");
    assert!(session.set_item_enabled(99, true).is_err());
    session.start_batch(true).expect("a file is ready");
    assert_eq!(session.cancel_batch(), Ok(AcceptedDto::yes()));
    assert_eq!(session.phase, AppPhaseDto::Cancelling);
    session.fail_batch("the supervisor stopped");
    assert_eq!(session.phase, AppPhaseDto::Idle);
    assert_eq!(session.retry_items(&vec![99]), Ok(Vec::new()));
}

#[test]
fn probes_are_refused_without_tools() {
    let input = FilePath::from_text("/in/movie.mkv");
    let mut session = Session::load(&config(), None, &Err("none".to_owned()));
    session.add_discovered(&vec![input]);
    let message = session.refuse_probes();
    assert!(!message.is_empty());
    assert_eq!(session.queue[0].error.as_deref(), Some(TOOLS_MISSING));
    assert!(!RETRY_NEEDS_TOOLS.is_empty());
}

#[test]
fn output_directories_are_directories() {
    let mut session = session();
    let directory = FilePath::from_text("/out");
    assert!(session.set_output_directory(directory.clone(), false).is_err());
    assert!(session.set_output_directory(directory.clone(), true).is_ok());
    assert_eq!(session.output_directory, Some(directory));
    assert_eq!(session.snapshot().settings.output_directory.as_deref(), Some("/out"));
    assert!(is_menu_action("add-files"));
    assert!(!is_menu_action("format-disk"));
}

#[test]
fn utf8_path_has_exact_bytes() {
    let value = PathDto::new(&FilePath::from_text("movie.mkv"));
    assert_eq!(value.native_encoding, "utf-8");
    assert_eq!(value.native_hex, "6d6f7669652e6d6b76");
}

#[test]
fn non_utf8_unix_path_is_lossless() {
    let value = PathDto::new(&FilePath::from_bytes(b"bad-\xff.mkv".to_vec()));
    assert_eq!(value.native_encoding, "unix-bytes");
    assert_eq!(value.native_hex, "6261642dff2e6d6b76");
    assert_eq!(value.display, "bad-\u{fffd}.mkv");
    assert_eq!(encode_hex(&vec![0, 255, 16]), "00ff10");
}

#[test]
fn media_is_shown_for_people_and_for_programs() {
    let media = media(&FilePath::from_text("movie.mkv"));
    assert_eq!(human::probe(&media, true), "movie.mkv: 2 stream(s), 1 audio, 0 chapter(s)");
    assert_eq!(
        human::probe(&media, false),
        "movie.mkv\n  container: matroska, webm\n  duration: 60500000 us\n  chapters: 0\n  \
         stream 0: video; hevc; language=-; title=-; default=false\n  \
         stream 1: audio; DTS-HD MA; 6 ch 5.1(side); language=eng; title=Main; default=true"
    );
    let dto = ProbeDto::from_media(&media);
    assert_eq!(dto.formats, vec!["matroska", "webm"]);
    assert_eq!(dto.duration_us, Some(60_500_000));
    assert_eq!(dto.streams[1].channels, Some(6));
    assert_eq!(dto.streams[1].kind, "audio");
    assert_eq!(dto.streams[1].layout.as_deref(), Some("5.1(side)"));
}

#[test]
fn plans_are_shown_for_people_and_for_programs() {
    let model = probed();
    let item: &QueueItem = &model.queue[0];
    let Some(sonicmux::plan::PlanOutcome::Execute(plan)) = &item.plan else {
        panic!("there is something to do")
    };
    assert_eq!(
        human::plan(plan),
        "/in/movie.mkv -> /in/movie.sonicmux.mkv: Transcode, 3 stream(s), 1 encoded audio stream(s)"
    );
    let dto = PlanDto::from_plan(plan);
    assert_eq!((dto.streams, dto.encoded_audio_streams), (3, 1));
    assert_ne!(
        planned_action(&item.plan, StreamIndex::new(1)),
        planned_action(&None, StreamIndex::new(1))
    );
}

#[test]
fn backends_are_shown_for_people_and_for_programs() {
    let report = BackendCapabilities::new(
        "ffmpeg-cli",
        vec![BackendToolInfo::new(
            BackendToolRole::Ffmpeg,
            FilePath::from_text("/bin/ffmpeg"),
            Some("7.1".to_owned()),
        )],
        vec![CapabilityCheck::new(MediaCapability::Encoder("ac3".to_owned()), false, None)],
        vec!["old".to_owned()],
    );
    assert_eq!(
        human::doctor(&report, true),
        "Backend: ffmpeg-cli\n  Ffmpeg: 7.1 (/bin/ffmpeg)\n  [missing] encoder ac3\n  warning: old"
    );
    let dto = DoctorDto::from_report(&report);
    assert!(!dto.healthy);
    assert_eq!(dto.checks[0].name, "ac3");
    assert_eq!(dto.tools[0].path.display, "/bin/ffmpeg");
}

#[test]
fn scheduler_arguments_are_bounded_and_failure_flags_conflict() {
    assert_eq!(parse_jobs("1"), Ok(1));
    assert_eq!(parse_jobs("64"), Ok(64));
    for refused in ["0", "65", "two", "-1", ""] {
        assert_eq!(parse_jobs(refused), Err("expected an integer from 1 through 64".to_owned()));
    }
    let with_jobs = |value: &str| EnvironmentValues {
        profile: EnvironmentText::Absent,
        codec: EnvironmentText::Absent,
        bitrate: EnvironmentText::Absent,
        channels: EnvironmentText::Absent,
        mode: EnvironmentText::Absent,
        jobs: EnvironmentText::Text(value.to_owned()),
        storage_profile: EnvironmentText::Absent,
        ffmpeg_path: None,
        output_directory: None,
        color: EnvironmentText::Absent,
        log_file: None,
    };
    let loaded = |value: &str| {
        load_effective_config(
            Ok(PartialConfig::default()),
            with_jobs(value),
            PartialConfig::default(),
        )
    };
    let accepted = loaded("2").expect("two files at once are accepted");
    assert_eq!(*accepted.jobs.value(), 2);
    assert_eq!(accepted.jobs.source(), ConfigSource::Environment);
    for refused in ["0", "65", "two"] {
        assert_eq!(
            loaded(refused).expect_err("the number is refused").message(),
            "invalid configuration field `jobs`: expected an integer from 1 through 64"
        );
    }
    assert_eq!(ColorChoice::Auto.as_str(), "auto");
    assert_eq!(StorageProfileChoice::Balanced.as_str(), "balanced");
}

#[test]
fn settings_rest_during_a_batch() {
    let mut model = probed();
    model.update(key(KeyCode::Char('s')));
    model.begin_batch().expect("a file is ready");
    model.update(key(KeyCode::Char('4')));
    let codec = model.settings.codec.clone();
    let jobs = model.settings.jobs;
    for code in [KeyCode::Right, KeyCode::Enter, KeyCode::Char('l'), KeyCode::Down, KeyCode::Enter] {
        model.update(key(code));
    }
    assert_eq!((model.settings.codec.as_str(), model.settings.jobs), (codec.as_str(), jobs));
    assert_eq!(model.phase, AppPhase::Running);
    let cancel = model.update(key(KeyCode::Char('c')));
    assert!(cancel.is_empty() || cancel == vec![Effect::CancelBatch]);
}

#[test]
fn jobs_stay_in_range() {
    let mut model = model();
    model.settings.selected_field = 6;
    for _ in 0..200 {
        model.settings.change(1);
        assert!((1..=64).contains(&model.settings.jobs));
    }
    for _ in 0..200 {
        model.settings.change(-1);
        assert!((1..=64).contains(&model.settings.jobs));
    }
}

#[test]
fn default_audio_is_a_word_an_index_or_a_language() {
    assert_eq!(parse_selection("first-compatible"), AudioSelectionRequest::FirstCompatible);
    assert_eq!(parse_selection("3"), AudioSelectionRequest::StreamIndex(StreamIndex::new(3)));
    assert_eq!(parse_selection("eng"), AudioSelectionRequest::Language("eng".to_owned()));
    assert_eq!(
        parse_selection("4294967296"),
        AudioSelectionRequest::Language("4294967296".to_owned())
    );
}

#[test]
fn exact_outputs_need_exactly_one_input() {
    let first = FilePath::from_text("/media/a.mkv");
    let second = FilePath::from_text("/media/b.mkv");
    let exact = Some(FilePath::from_text("/out/x.mkv"));
    assert_eq!(
        assign_outputs(&vec![first.clone()], &exact, &None),
        Ok(vec![FilePath::from_text("/out/x.mkv")])
    );
    let refused = Err("an exact output path needs exactly one input".to_owned());
    assert_eq!(assign_outputs(&vec![first.clone(), second.clone()], &exact, &None), refused);
    assert_eq!(assign_outputs(&Vec::new(), &exact, &None), refused);
    assert_eq!(
        assign_outputs(
            &vec![first, second],
            &None,
            &Some(FilePath::from_text("/out"))
        ),
        Ok(vec![
            FilePath::from_text("/out/a.sonicmux.mkv"),
            FilePath::from_text("/out/b.sonicmux.mkv"),
        ])
    );
}

#[test]
fn arguments_override_only_what_they_give() {
    let audio = AudioArgs { bitrate: Some("448k".to_owned()), ..AudioArgs::default() };
    assert_eq!(
        audio.overrides(),
        PartialConfig { bitrate: Some("448k".to_owned()), ..PartialConfig::default() }
    );
    let arguments = DiscoveryArgs {
        recursive: true,
        includes: vec!["*.mkv".to_owned()],
        excludes: Vec::new(),
        follow_links: false,
    };
    let request = arguments.request(vec![FilePath::from_text("/media")]);
    assert_eq!(
        request,
        DiscoveryRequest {
            roots: vec![FilePath::from_text("/media")],
            recursive: true,
            follow_links: false,
            includes: vec!["*.mkv".to_owned()],
            excludes: Vec::new(),
        }
    );
}

#[test]
fn paths_of_wide_units_keep_their_units() {
    let exact = PathDto::from_units(&vec![0x61, 0x2e], Ok("a."));
    assert_eq!(exact.display, "a.");
    assert_eq!(exact.native_encoding, "utf-8");
    assert_eq!(exact.native_hex, "612e");
    let torn = PathDto::from_units(&vec![0x61, 0xd800], Err("a\u{fffd}"));
    assert_eq!(torn.display, "a\u{fffd}");
    assert_eq!(torn.native_encoding, "windows-wtf16le");
    assert_eq!(torn.native_hex, "610000d8");
}

#[test]
fn desktop_queues_hold_no_file_twice() {
    let mut queue: Vec<QueueItem> = Vec::new();
    let first = FilePath::from_text("/media/a.mkv");
    let second = FilePath::from_text("/media/b.mkv");
    let (next, fresh) =
        enqueue(&mut queue, 0, &vec![first.clone()], &None, Interface::Desktop);
    assert_eq!((next, fresh.len()), (1, 1));
    let (next, fresh) = enqueue(
        &mut queue,
        next,
        &vec![FilePath::from_text("/media//a.mkv"), second.clone()],
        &None,
        Interface::Desktop,
    );
    assert_eq!(next, 2);
    assert_eq!(fresh, vec![(1, second)]);
    assert_eq!(queue.len(), 2);
}

#[test]
fn sessions_take_jobs_and_storage_from_the_configuration() {
    let configured = merge_config(
        DefaultConfig::default(),
        PartialConfig::default(),
        PartialConfig { storage_profile: Some("nvme".to_owned()), ..PartialConfig::default() },
        PartialConfig { jobs: Some(7), ..PartialConfig::default() },
    )
    .expect("settings are valid");
    let settings =
        UiSettings::from_config(&configured, false, None).expect("settings are valid");
    assert_eq!((settings.jobs, settings.storage_profile.as_str()), (7, "nvme"));
    let shown = Session::load(&configured, None, &Err("none".to_owned())).snapshot().settings;
    assert_eq!((shown.jobs, shown.storage_profile.as_str()), (7, "nvme"));
}
