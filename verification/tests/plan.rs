//! Plans: which streams are copied, which are encoded, and which audio is played by default.
use sonicmux::media::{Chapter, FormatInfo, MediaInfo};
use sonicmux::model::{ChannelCount, Metadata, StreamIndex, TimeBase};
use sonicmux::path::FilePath;
use sonicmux::plan::{
    build, AudioSelector, JobAction, JobPlan, OutputMode, OutputStreamPlan, PlanError, PlanOutcome,
    PlanningPolicy, RequestedAction, SkipReason,
};
use sonicmux::policy::{CompatibilityPolicy, ProfileName};
use sonicmux::stream::{
    AttachmentStream, AudioCodec, AudioStream, Channels, DataStream, Dispositions, DtsProfile,
    StreamCommon, StreamInfo, SubtitleStream, VideoStream,
};
use sonicmux::table::TextMap;
use sonicmux::target::{Ac3Bitrate, AudioTarget, TargetLayout};

#[derive(Clone)]
struct AudioSpec {
    codec: AudioCodec,
    channels: u16,
    default: bool,
    language: Option<&'static str>,
    title: Option<&'static str>,
}

fn dts(default: bool) -> AudioSpec {
    AudioSpec {
        codec: AudioCodec::Dts(DtsProfile::Core),
        channels: 6,
        default,
        language: Some("eng"),
        title: Some("Main"),
    }
}

fn ac3(default: bool) -> AudioSpec {
    AudioSpec {
        codec: AudioCodec::Ac3,
        channels: 6,
        default,
        language: Some("eng"),
        title: Some("Compatible"),
    }
}

fn audio_stream(index: u32, spec: &AudioSpec) -> StreamInfo {
    let mut flags = TextMap::new();
    flags.insert("default".to_owned(), spec.default);
    flags.insert("forced".to_owned(), true);
    let mut metadata = Metadata::default();
    if let Some(language) = spec.language {
        metadata
            .insert("language", language)
            .expect("test language is valid");
    }
    if let Some(title) = spec.title {
        metadata
            .insert("title", title)
            .expect("test title is valid");
    }
    let codec_name = match spec.codec {
        AudioCodec::Ac3 => "ac3",
        AudioCodec::Aac => "aac",
        AudioCodec::Mp3 => "mp3",
        AudioCodec::TrueHd => "truehd",
        AudioCodec::Flac => "flac",
        AudioCodec::Dts(_) => "dts",
        _ => "other",
    };
    let common = StreamCommon::new(StreamIndex::new(index), codec_name)
        .expect("test codec is valid")
        .with_metadata(metadata)
        .with_dispositions(Dispositions::from_flags(flags));
    StreamInfo::Audio(AudioStream::new(
        common,
        spec.codec.clone(),
        Channels::new(
            ChannelCount::new(spec.channels).expect("test channels are valid"),
            None,
        ),
        None,
    ))
}

fn common(index: u32, codec: &str) -> StreamCommon {
    StreamCommon::new(StreamIndex::new(index), codec).expect("test codec is valid")
}

fn media(audio: &[AudioSpec]) -> MediaInfo {
    let mut streams = vec![StreamInfo::Video(VideoStream::new(common(0, "hevc")))];
    streams.extend(
        audio
            .iter()
            .enumerate()
            .map(|(position, spec)| audio_stream(position as u32 + 1, spec)),
    );
    MediaInfo::new(
        FilePath::from_text("movie.mkv"),
        FormatInfo::new(vec!["matroska".to_owned()]).expect("format is valid"),
        streams,
        Vec::new(),
    )
    .expect("media is valid")
}

fn policy_to(mode: OutputMode, action: RequestedAction, output: &str) -> PlanningPolicy {
    PlanningPolicy::new(
        CompatibilityPolicy::for_profile(ProfileName::GenericTv),
        AudioTarget::Ac3 {
            bitrate: Ac3Bitrate::new(640_000).expect("default bitrate is valid"),
            layout: TargetLayout::KeepUpTo51,
        },
        mode,
        action,
        FilePath::from_text(output),
    )
}

fn policy(mode: OutputMode, action: RequestedAction) -> PlanningPolicy {
    policy_to(mode, action, "movie.sonicmux.mkv")
}

fn execute(outcome: PlanOutcome) -> JobPlan {
    match outcome {
        PlanOutcome::Execute(plan) => plan,
        PlanOutcome::Skip(reason) => panic!("expected execute, got {reason:?}"),
        _ => panic!("unexpected outcome"),
    }
}

/// The source, whether it is encoded and whether it is played by default, for each output stream.
fn shape(plan: &JobPlan) -> Vec<(u32, bool, bool)> {
    plan.streams()
        .iter()
        .map(|s| (s.source().get(), s.is_encode(), s.dispositions().is_default()))
        .collect()
}

#[test]
fn add_appends_derivative_and_copies_source() {
    let plan = execute(
        build(
            &media(&[dts(true)]),
            &policy(OutputMode::Add, RequestedAction::Convert),
        )
        .expect("plan succeeds"),
    );
    assert_eq!(plan.streams().len(), 3);
    assert!(!plan.streams()[1].is_encode());
    assert!(plan.streams()[2].is_encode());
}

#[test]
fn add_orders_multiple_derivatives_by_source_audio() {
    let plan = execute(
        build(
            &media(&[dts(false), dts(false)]),
            &policy(OutputMode::Add, RequestedAction::Convert),
        )
        .expect("plan succeeds"),
    );
    let encoded: Vec<_> = plan
        .streams()
        .iter()
        .filter(|value| value.is_encode())
        .map(OutputStreamPlan::source)
        .collect();
    assert_eq!(encoded, [StreamIndex::new(1), StreamIndex::new(2)]);
}

#[test]
fn add_with_only_compatible_audio_skips() {
    assert_eq!(
        build(
            &media(&[ac3(true)]),
            &policy(OutputMode::Add, RequestedAction::Convert)
        ),
        Ok(PlanOutcome::Skip(SkipReason::NothingToDo))
    );
}

#[test]
fn add_transfers_default_from_incompatible_source() {
    let plan = execute(
        build(
            &media(&[dts(true)]),
            &policy(OutputMode::Add, RequestedAction::Convert),
        )
        .expect("plan succeeds"),
    );
    assert!(!plan.streams()[1].dispositions().is_default());
    assert!(plan.streams()[2].dispositions().is_default());
    assert_eq!(plan.streams()[1].dispositions().flag("forced"), Some(true));
}

#[test]
fn add_selects_first_derivative_when_no_source_is_default() {
    let plan = execute(
        build(
            &media(&[dts(false), dts(false)]),
            &policy(OutputMode::Add, RequestedAction::Convert),
        )
        .expect("plan succeeds"),
    );
    let encoded: Vec<_> = plan
        .streams()
        .iter()
        .filter(|value| value.is_encode())
        .collect();
    assert!(encoded[0].dispositions().is_default());
    assert!(!encoded[1].dispositions().is_default());
}

#[test]
fn add_preserves_existing_compatible_default() {
    let plan = execute(
        build(
            &media(&[ac3(true), dts(false)]),
            &policy(OutputMode::Add, RequestedAction::Convert),
        )
        .expect("plan succeeds"),
    );
    assert!(plan.streams()[1].dispositions().is_default());
    assert!(!plan
        .streams()
        .last()
        .expect("derivative exists")
        .dispositions()
        .is_default());
}

#[test]
fn replace_substitutes_incompatible_stream_in_position() {
    let plan = execute(
        build(
            &media(&[dts(true)]),
            &policy(OutputMode::Replace, RequestedAction::Convert),
        )
        .expect("plan succeeds"),
    );
    assert_eq!(plan.streams().len(), 2);
    assert!(plan.streams()[1].is_encode());
    assert_eq!(plan.streams()[1].source(), StreamIndex::new(1));
}

#[test]
fn replace_copies_compatible_audio_in_mixed_input() {
    let plan = execute(
        build(
            &media(&[ac3(true), dts(false)]),
            &policy(OutputMode::Replace, RequestedAction::Convert),
        )
        .expect("plan succeeds"),
    );
    assert!(!plan.streams()[1].is_encode());
    assert!(plan.streams()[2].is_encode());
}

#[test]
fn only_new_omits_all_original_audio() {
    let plan = execute(
        build(
            &media(&[ac3(true), dts(false)]),
            &policy(OutputMode::OnlyNew, RequestedAction::Convert),
        )
        .expect("plan succeeds"),
    );
    assert_eq!(plan.streams().len(), 2);
    assert_eq!(plan.streams()[1].source(), StreamIndex::new(2));
    assert!(plan.streams()[1].is_encode());
}

#[test]
fn only_new_errors_without_derivative() {
    assert_eq!(
        build(
            &media(&[ac3(true)]),
            &policy(OutputMode::OnlyNew, RequestedAction::Convert)
        ),
        Err(PlanError::NothingToDo)
    );
}

#[test]
fn remux_chooses_first_compatible_stream() {
    let action = RequestedAction::RemuxOnly {
        selection: AudioSelector::FirstCompatible,
    };
    let plan = execute(
        build(
            &media(&[dts(true), ac3(false)]),
            &policy(OutputMode::Add, action),
        )
        .expect("plan succeeds"),
    );
    assert_eq!(plan.action(), JobAction::RemuxOnly);
    assert!(!plan.streams()[1].dispositions().is_default());
    assert!(plan.streams()[2].dispositions().is_default());
}

#[test]
fn remux_honors_exact_compatible_index() {
    let action = RequestedAction::RemuxOnly {
        selection: AudioSelector::StreamIndex(StreamIndex::new(2)),
    };
    let plan = execute(
        build(
            &media(&[ac3(true), ac3(false)]),
            &policy(OutputMode::Add, action),
        )
        .expect("plan succeeds"),
    );
    assert!(!plan.streams()[1].dispositions().is_default());
    assert!(plan.streams()[2].dispositions().is_default());
}

#[test]
fn remux_rejects_incompatible_selection() {
    let action = RequestedAction::RemuxOnly {
        selection: AudioSelector::StreamIndex(StreamIndex::new(1)),
    };
    assert_eq!(
        build(
            &media(&[dts(true), ac3(false)]),
            &policy(OutputMode::Add, action)
        ),
        Err(PlanError::InvalidRemuxSelection)
    );
}

#[test]
fn remux_rejects_missing_selection() {
    let action = RequestedAction::RemuxOnly {
        selection: AudioSelector::StreamIndex(StreamIndex::new(99)),
    };
    assert_eq!(
        build(&media(&[ac3(true)]), &policy(OutputMode::Add, action)),
        Err(PlanError::InvalidRemuxSelection)
    );
}

#[test]
fn remux_emits_no_encoder_operation() {
    let action = RequestedAction::RemuxOnly {
        selection: AudioSelector::FirstCompatible,
    };
    let plan = execute(
        build(
            &media(&[ac3(true), dts(false)]),
            &policy(OutputMode::Add, action),
        )
        .expect("plan succeeds"),
    );
    assert!(plan.streams().iter().all(|value| !value.is_encode()));
}

#[test]
fn video_is_always_copied() {
    let plan = execute(
        build(
            &media(&[dts(true)]),
            &policy(OutputMode::Replace, RequestedAction::Convert),
        )
        .expect("plan succeeds"),
    );
    assert_eq!(plan.streams()[0].source(), StreamIndex::new(0));
    assert!(!plan.streams()[0].is_encode());
}

#[test]
fn subtitle_attachment_and_data_are_copied() {
    let streams = vec![
        StreamInfo::Video(VideoStream::new(common(0, "hevc"))),
        audio_stream(1, &dts(true)),
        StreamInfo::Subtitle(SubtitleStream::new(common(2, "ass"))),
        StreamInfo::Attachment(AttachmentStream::new(
            common(3, "ttf"),
            Some("font.ttf".to_owned()),
            Some("font/ttf".to_owned()),
        )),
        StreamInfo::Data(DataStream::new(common(4, "bin_data"))),
    ];
    let input = MediaInfo::new(
        FilePath::from_text("movie.mkv"),
        FormatInfo::new(vec!["matroska".to_owned()]).expect("format"),
        streams,
        Vec::new(),
    )
    .expect("media");
    let plan = execute(
        build(
            &input,
            &policy(OutputMode::Replace, RequestedAction::Convert),
        )
        .expect("plan succeeds"),
    );
    assert!(plan
        .streams()
        .iter()
        .filter(|operation| [2, 3, 4].contains(&operation.source().get()))
        .all(|operation| !operation.is_encode()));
    assert_eq!(plan.streams().len(), 5);
}

#[test]
fn chapters_and_global_metadata_are_copied() {
    let source = media(&[dts(true)]);
    let chapter = Chapter::new(
        0,
        TimeBase::new(1, 1_000).expect("time base is valid"),
        0,
        5_000,
        Metadata::default(),
    )
    .expect("chapter is valid");
    let source = MediaInfo::new(
        source.path().clone(),
        source.format().clone(),
        source.streams().clone(),
        vec![chapter.clone()],
    )
    .expect("media is valid");
    let plan = execute(
        build(
            &source,
            &policy(OutputMode::Replace, RequestedAction::Convert),
        )
        .expect("plan succeeds"),
    );
    assert!(plan.copy_chapters());
    assert!(plan.copy_global_metadata());
    assert_eq!(plan.expected().chapters(), &[chapter]);
    assert_eq!(
        plan.expected().global_metadata(),
        source.format().metadata()
    );
}

#[test]
fn language_and_title_are_inherited() {
    let plan = execute(
        build(
            &media(&[dts(true)]),
            &policy(OutputMode::Replace, RequestedAction::Convert),
        )
        .expect("plan succeeds"),
    );
    let OutputStreamPlan::EncodeAudio { metadata, .. } = &plan.streams()[1] else {
        panic!("expected derivative")
    };
    assert_eq!(metadata.metadata().get("language"), Some("eng"));
    assert_eq!(metadata.metadata().get("title"), Some("Main [AC-3 5.1]"));
}

#[test]
fn title_without_source_title_is_deterministic() {
    let mut spec = dts(true);
    spec.title = None;
    let plan = execute(
        build(
            &media(&[spec]),
            &policy(OutputMode::Replace, RequestedAction::Convert),
        )
        .expect("plan succeeds"),
    );
    let OutputStreamPlan::EncodeAudio { metadata, .. } = &plan.streams()[1] else {
        panic!("expected derivative")
    };
    assert_eq!(metadata.metadata().get("title"), Some("AC-3 5.1"));
}

#[test]
fn no_audio_input_is_rejected() {
    let input = MediaInfo::new(
        FilePath::from_text("movie.mkv"),
        FormatInfo::new(vec!["matroska".to_owned()]).expect("format"),
        vec![StreamInfo::Video(VideoStream::new(common(0, "hevc")))],
        Vec::new(),
    )
    .expect("media");
    assert_eq!(
        build(&input, &policy(OutputMode::Add, RequestedAction::Convert)),
        Err(PlanError::NoAudioStreams)
    );
}

#[test]
fn non_matroska_input_is_rejected() {
    let mut input = media(&[dts(true)]);
    input = MediaInfo::new(
        FilePath::from_text("movie.mp4"),
        FormatInfo::new(vec!["mov".to_owned()]).expect("format"),
        input.streams().clone(),
        Vec::new(),
    )
    .expect("media");
    assert_eq!(
        build(&input, &policy(OutputMode::Add, RequestedAction::Convert)),
        Err(PlanError::UnsupportedContainer)
    );
}

#[test]
fn equal_input_output_paths_are_rejected() {
    let policy = policy_to(OutputMode::Add, RequestedAction::Convert, "movie.mkv");
    assert_eq!(
        build(&media(&[dts(true)]), &policy),
        Err(PlanError::InputEqualsOutput)
    );
}

#[test]
fn unknown_codec_without_fallback_is_rejected() {
    let spec = AudioSpec {
        codec: AudioCodec::Other("future".to_owned()),
        channels: 2,
        default: true,
        language: None,
        title: None,
    };
    assert!(matches!(
        build(
            &media(&[spec]),
            &policy(OutputMode::Add, RequestedAction::Convert)
        ),
        Err(PlanError::Policy(_))
    ));
}

#[test]
fn equal_inputs_produce_equal_plans() {
    let input = media(&[dts(true)]);
    let policy = policy(OutputMode::Add, RequestedAction::Convert);
    assert_eq!(build(&input, &policy), build(&input, &policy));
}

#[test]
fn target_bitrate_rejects_nonstandard_ac3_value() {
    assert!(Ac3Bitrate::new(639_000).is_err());
}

#[test]
fn snapshot_add_plan() {
    let plan = execute(
        build(
            &media(&[dts(true)]),
            &policy(OutputMode::Add, RequestedAction::Convert),
        )
        .expect("plan succeeds"),
    );
    assert_eq!(plan.input(), &FilePath::from_text("movie.mkv"));
    assert_eq!(plan.output(), &FilePath::from_text("movie.sonicmux.mkv"));
    assert_eq!(plan.action(), JobAction::Transcode);
    assert_eq!(
        shape(&plan),
        [(0, false, false), (1, false, false), (1, true, true)]
    );
    assert_eq!(plan.expected().streams().len(), 3);
}

#[test]
fn snapshot_replace_plan() {
    let plan = execute(
        build(
            &media(&[ac3(true), dts(false)]),
            &policy(OutputMode::Replace, RequestedAction::Convert),
        )
        .expect("plan succeeds"),
    );
    assert_eq!(plan.action(), JobAction::Transcode);
    assert_eq!(
        shape(&plan),
        [(0, false, false), (1, false, true), (2, true, false)]
    );
}

#[test]
fn snapshot_only_new_plan() {
    let plan = execute(
        build(
            &media(&[ac3(true), dts(false)]),
            &policy(OutputMode::OnlyNew, RequestedAction::Convert),
        )
        .expect("plan succeeds"),
    );
    assert_eq!(shape(&plan), [(0, false, false), (2, true, false)]);
}

#[test]
fn snapshot_remux_plan() {
    let action = RequestedAction::RemuxOnly {
        selection: AudioSelector::FirstCompatible,
    };
    let plan = execute(
        build(
            &media(&[dts(true), ac3(false)]),
            &policy(OutputMode::Add, action),
        )
        .expect("plan succeeds"),
    );
    assert_eq!(plan.action(), JobAction::RemuxOnly);
    assert_eq!(
        shape(&plan),
        [(0, false, false), (1, false, false), (2, false, true)]
    );
}

#[test]
fn snapshot_mixed_dispositions_and_metadata() {
    let plan = execute(
        build(
            &media(&[ac3(true), dts(false), dts(false)]),
            &policy(OutputMode::Add, RequestedAction::Convert),
        )
        .expect("plan succeeds"),
    );
    assert_eq!(
        shape(&plan),
        [
            (0, false, false),
            (1, false, true),
            (2, false, false),
            (3, false, false),
            (2, true, false),
            (3, true, false)
        ]
    );
    for operation in &plan.streams()[1..] {
        assert_eq!(operation.dispositions().flag("forced"), Some(true));
    }
    let OutputStreamPlan::EncodeAudio { metadata, .. } = &plan.streams()[5] else {
        panic!("expected derivative")
    };
    assert_eq!(metadata.metadata().get("title"), Some("Main [AC-3 5.1]"));
}

#[test]
fn snapshot_typed_failure() {
    let failure = build(
        &media(&[ac3(true)]),
        &policy(OutputMode::OnlyNew, RequestedAction::Convert),
    );
    assert_eq!(format!("{failure:?}"), "Err(NothingToDo)");
}

/// All ways in which up to five audio streams are incompatible.
fn patterns() -> Vec<Vec<bool>> {
    let mut all = Vec::new();
    for length in 1..6u32 {
        for bits in 0..(1u32 << length) {
            all.push((0..length).map(|i| bits & (1 << i) != 0).collect());
        }
    }
    all
}

fn specs(incompatible: &[bool]) -> Vec<AudioSpec> {
    incompatible
        .iter()
        .map(|value| if *value { dts(false) } else { ac3(false) })
        .collect()
}

#[test]
fn replace_never_changes_source_origin_count() {
    for incompatible in patterns() {
        let outcome = build(
            &media(&specs(&incompatible)),
            &policy(OutputMode::Replace, RequestedAction::Convert),
        )
        .expect("planning succeeds");
        if incompatible.iter().any(|value| *value) {
            assert_eq!(execute(outcome).streams().len(), incompatible.len() + 1);
        } else {
            assert_eq!(outcome, PlanOutcome::Skip(SkipReason::NothingToDo));
        }
    }
}

#[test]
fn remux_never_encodes() {
    for extra_dts in 0..12usize {
        let mut all = vec![ac3(true)];
        all.extend((0..extra_dts).map(|_| dts(false)));
        let action = RequestedAction::RemuxOnly {
            selection: AudioSelector::FirstCompatible,
        };
        let plan = execute(
            build(&media(&all), &policy(OutputMode::Add, action)).expect("planning succeeds"),
        );
        assert!(plan.streams().iter().all(|operation| !operation.is_encode()));
    }
}

#[test]
fn add_duplicates_only_incompatible_audio_sources() {
    for incompatible in patterns() {
        let outcome = build(
            &media(&specs(&incompatible)),
            &policy(OutputMode::Add, RequestedAction::Convert),
        )
        .expect("planning succeeds");
        if incompatible.iter().any(|value| *value) {
            let plan = execute(outcome);
            for (position, expected_duplicate) in incompatible.iter().enumerate() {
                let source = StreamIndex::new(position as u32 + 1);
                let count = plan
                    .streams()
                    .iter()
                    .filter(|operation| operation.source() == source)
                    .count();
                assert_eq!(count, if *expected_duplicate { 2 } else { 1 });
            }
        }
    }
}

#[test]
fn every_plan_failure_has_its_words() {
    let container = PlanError::UnsupportedContainer.message();
    let audio = PlanError::NoAudioStreams.message();
    let same = PlanError::InputEqualsOutput.message();
    let nothing = PlanError::NothingToDo.message();
    let selection = PlanError::InvalidRemuxSelection.message();
    let all = [container, audio, same, nothing, selection];
    for (i, a) in all.iter().enumerate() {
        assert!(!a.is_empty());
        for b in &all[i + 1..] {
            assert_ne!(a, b);
        }
    }
}
