//! What the desktop is told.
use vstd::prelude::*;

use crate::cli::dto;
use crate::media::{MediaInfo, MediaInfoView};
use crate::model;
use crate::plan::{PlanOutcome, PlanOutcomeView};
use crate::queue::{ItemView, QueueItem};
use crate::session;
use crate::stream::{StreamInfo, StreamInfoView};
use crate::text;

verus! {

/// What is going on on the desktop.
#[derive(Debug, Clone, Copy, PartialEq, Eq, Structural)]
pub enum AppPhaseDto {
    /// The tools are missing.
    ToolchainSetup,
    /// Nothing.
    Idle,
    /// Files are looked for and inspected.
    Probing,
    /// A batch.
    Running,
    /// A batch that is being cancelled.
    Cancelling,
}

impl DeepView for AppPhaseDto {
    type V = AppPhaseDto;

    open spec fn deep_view(&self) -> AppPhaseDto {
        *self
    }
}

/// Whether the tools are there.
#[derive(Debug, PartialEq, Eq)]
pub struct ToolchainStatusDto {
    /// Whether they are.
    pub available: bool,
    /// Where they were found.
    pub source: String,
    /// What else there is to say.
    pub detail: String,
}

/// Whether the tools are there.
pub struct ToolchainStatusView {
    /// Whether they are.
    pub available: bool,
    /// Where they were found.
    pub source: Seq<char>,
    /// What else there is to say.
    pub detail: Seq<char>,
}

impl View for ToolchainStatusDto {
    type V = ToolchainStatusView;

    open spec fn view(&self) -> ToolchainStatusView {
        ToolchainStatusView {
            available: self.available,
            source: self.source@,
            detail: self.detail@,
        }
    }
}

impl DeepView for ToolchainStatusDto {
    type V = ToolchainStatusView;

    open spec fn deep_view(&self) -> ToolchainStatusView {
        self@
    }
}

impl Clone for ToolchainStatusDto {
    fn clone(&self) -> (r: Self)
        ensures
            r@ == self@,
    {
        let r = ToolchainStatusDto {
            available: self.available,
            source: self.source.clone(),
            detail: self.detail.clone(),
        };
        r
    }
}

/// The settings of a session on the desktop.
#[derive(Debug, PartialEq, Eq)]
pub struct SettingsDto {
    /// Device profile.
    pub profile: String,
    /// Whether files are converted or only remuxed.
    pub action: String,
    /// Target codec.
    pub codec: String,
    /// Target bitrate.
    pub bitrate: String,
    /// Target layout.
    pub channels: String,
    /// Output mode.
    pub mode: String,
    /// How many files are worked on at once.
    pub jobs: usize,
    /// The kind of storage.
    pub storage_profile: String,
    /// What a failure means for the other files.
    pub failure_policy: String,
    /// Whether nothing is converted.
    pub dry_run: bool,
    /// The directory of outputs as it is shown.
    pub output_directory: Option<String>,
}

/// The settings of a session on the desktop.
pub struct SettingsView {
    /// Device profile.
    pub profile: Seq<char>,
    /// Whether files are converted or only remuxed.
    pub action: Seq<char>,
    /// Target codec.
    pub codec: Seq<char>,
    /// Target bitrate.
    pub bitrate: Seq<char>,
    /// Target layout.
    pub channels: Seq<char>,
    /// Output mode.
    pub mode: Seq<char>,
    /// How many files are worked on at once.
    pub jobs: usize,
    /// The kind of storage.
    pub storage_profile: Seq<char>,
    /// What a failure means for the other files.
    pub failure_policy: Seq<char>,
    /// Whether nothing is converted.
    pub dry_run: bool,
    /// The directory of outputs as it is shown.
    pub output_directory: Option<Seq<char>>,
}

impl View for SettingsDto {
    type V = SettingsView;

    open spec fn view(&self) -> SettingsView {
        SettingsView {
            profile: self.profile@,
            action: self.action@,
            codec: self.codec@,
            bitrate: self.bitrate@,
            channels: self.channels@,
            mode: self.mode@,
            jobs: self.jobs,
            storage_profile: self.storage_profile@,
            failure_policy: self.failure_policy@,
            dry_run: self.dry_run,
            output_directory: self.output_directory.deep_view(),
        }
    }
}

impl DeepView for SettingsDto {
    type V = SettingsView;

    open spec fn deep_view(&self) -> SettingsView {
        self@
    }
}

impl Clone for SettingsDto {
    fn clone(&self) -> (r: Self)
        ensures
            r@ == self@,
    {
        let r = SettingsDto {
            profile: self.profile.clone(),
            action: self.action.clone(),
            codec: self.codec.clone(),
            bitrate: self.bitrate.clone(),
            channels: self.channels.clone(),
            mode: self.mode.clone(),
            jobs: self.jobs,
            storage_profile: self.storage_profile.clone(),
            failure_policy: self.failure_policy.clone(),
            dry_run: self.dry_run,
            output_directory: text::copy_text(&self.output_directory),
        };
        r
    }
}

/// A stream on the desktop.
#[derive(Debug, PartialEq, Eq)]
pub struct TrackDto {
    /// Its index.
    pub index: u32,
    /// Its kind.
    pub kind: String,
    /// Its codec.
    pub codec: String,
    /// Its channels.
    pub channels: Option<u16>,
    /// Its language.
    pub language: Option<String>,
    /// Its title.
    pub title: Option<String>,
    /// Whether it is played by default.
    pub default: bool,
    /// What is to be done with it.
    pub action: String,
}

/// A stream on the desktop.
pub struct TrackView {
    /// Its index.
    pub index: u32,
    /// Its kind.
    pub kind: Seq<char>,
    /// Its codec.
    pub codec: Seq<char>,
    /// Its channels.
    pub channels: Option<u16>,
    /// Its language.
    pub language: Option<Seq<char>>,
    /// Its title.
    pub title: Option<Seq<char>>,
    /// Whether it is played by default.
    pub default: bool,
    /// What is to be done with it.
    pub action: Seq<char>,
}

impl View for TrackDto {
    type V = TrackView;

    open spec fn view(&self) -> TrackView {
        TrackView {
            index: self.index,
            kind: self.kind@,
            codec: self.codec@,
            channels: self.channels,
            language: self.language.deep_view(),
            title: self.title.deep_view(),
            default: self.default,
            action: self.action@,
        }
    }
}

impl DeepView for TrackDto {
    type V = TrackView;

    open spec fn deep_view(&self) -> TrackView {
        self@
    }
}

impl Clone for TrackDto {
    fn clone(&self) -> (r: Self)
        ensures
            r@ == self@,
    {
        let r = TrackDto {
            index: self.index,
            kind: self.kind.clone(),
            codec: self.codec.clone(),
            channels: self.channels,
            language: text::copy_text(&self.language),
            title: text::copy_text(&self.title),
            default: self.default,
            action: self.action.clone(),
        };
        r
    }
}

/// A file of the queue on the desktop.
#[derive(Debug, PartialEq, Eq)]
pub struct QueueItemDto {
    /// Its number.
    pub id: u64,
    /// Its name.
    pub name: String,
    /// Where it is.
    pub input_display: String,
    /// Where its output goes.
    pub output_display: String,
    /// Whether it takes part in the next batch.
    pub enabled: bool,
    /// How far it is.
    pub status: String,
    /// How far its conversion is in thousandths.
    pub progress_milli: Option<u16>,
    /// The seconds that it still needs.
    pub eta_seconds: Option<u64>,
    /// What is to be done with it.
    pub plan: String,
    /// What is wrong with it.
    pub error: Option<String>,
    /// Its streams.
    pub tracks: Vec<TrackDto>,
}

/// A file of the queue on the desktop.
pub struct QueueItemView {
    /// Its number.
    pub id: u64,
    /// Its name.
    pub name: Seq<char>,
    /// Where it is.
    pub input_display: Seq<char>,
    /// Where its output goes.
    pub output_display: Seq<char>,
    /// Whether it takes part in the next batch.
    pub enabled: bool,
    /// How far it is.
    pub status: Seq<char>,
    /// How far its conversion is in thousandths.
    pub progress_milli: Option<u16>,
    /// The seconds that it still needs.
    pub eta_seconds: Option<u64>,
    /// What is to be done with it.
    pub plan: Seq<char>,
    /// What is wrong with it.
    pub error: Option<Seq<char>>,
    /// Its streams.
    pub tracks: Seq<TrackView>,
}

impl View for QueueItemDto {
    type V = QueueItemView;

    open spec fn view(&self) -> QueueItemView {
        QueueItemView {
            id: self.id,
            name: self.name@,
            input_display: self.input_display@,
            output_display: self.output_display@,
            enabled: self.enabled,
            status: self.status@,
            progress_milli: self.progress_milli,
            eta_seconds: self.eta_seconds,
            plan: self.plan@,
            error: self.error.deep_view(),
            tracks: self.tracks.deep_view(),
        }
    }
}

impl DeepView for QueueItemDto {
    type V = QueueItemView;

    open spec fn deep_view(&self) -> QueueItemView {
        self@
    }
}

impl Clone for QueueItemDto {
    fn clone(&self) -> (r: Self)
        ensures
            r@ == self@,
    {
        let r = QueueItemDto {
            id: self.id,
            name: self.name.clone(),
            input_display: self.input_display.clone(),
            output_display: self.output_display.clone(),
            enabled: self.enabled,
            status: self.status.clone(),
            progress_milli: self.progress_milli,
            eta_seconds: self.eta_seconds,
            plan: self.plan.clone(),
            error: text::copy_text(&self.error),
            tracks: self.tracks.clone(),
        };
        proof {
            assert(r.tracks.deep_view() =~= self.tracks.deep_view());
        }
        r
    }
}

/// All that is shown on the desktop.
#[derive(Debug, PartialEq, Eq)]
pub struct SessionSnapshotDto {
    /// What is going on.
    pub phase: AppPhaseDto,
    /// The queue.
    pub queue: Vec<QueueItemDto>,
    /// The settings.
    pub settings: SettingsDto,
    /// The profiles that can be chosen.
    pub profiles: Vec<String>,
    /// Whether a batch can be started.
    pub can_start: bool,
    /// How far the batch is in thousandths.
    pub progress_milli: Option<u16>,
    /// The seconds that the batch still needs.
    pub eta_seconds: Option<u64>,
    /// Messages.
    pub logs: Vec<String>,
}

/// All that is shown on the desktop.
pub struct SessionSnapshotView {
    /// What is going on.
    pub phase: AppPhaseDto,
    /// The queue.
    pub queue: Seq<QueueItemView>,
    /// The settings.
    pub settings: SettingsView,
    /// The profiles that can be chosen.
    pub profiles: Seq<Seq<char>>,
    /// Whether a batch can be started.
    pub can_start: bool,
    /// How far the batch is in thousandths.
    pub progress_milli: Option<u16>,
    /// The seconds that the batch still needs.
    pub eta_seconds: Option<u64>,
    /// Messages.
    pub logs: Seq<Seq<char>>,
}

impl View for SessionSnapshotDto {
    type V = SessionSnapshotView;

    open spec fn view(&self) -> SessionSnapshotView {
        SessionSnapshotView {
            phase: self.phase,
            queue: self.queue.deep_view(),
            settings: self.settings@,
            profiles: self.profiles.deep_view(),
            can_start: self.can_start,
            progress_milli: self.progress_milli,
            eta_seconds: self.eta_seconds,
            logs: self.logs.deep_view(),
        }
    }
}

impl DeepView for SessionSnapshotDto {
    type V = SessionSnapshotView;

    open spec fn deep_view(&self) -> SessionSnapshotView {
        self@
    }
}

impl Clone for SessionSnapshotDto {
    fn clone(&self) -> (r: Self)
        ensures
            r@ == self@,
    {
        let r = SessionSnapshotDto {
            phase: self.phase,
            queue: self.queue.clone(),
            settings: self.settings.clone(),
            profiles: text::copy_texts(&self.profiles),
            can_start: self.can_start,
            progress_milli: self.progress_milli,
            eta_seconds: self.eta_seconds,
            logs: text::copy_texts(&self.logs),
        };
        proof {
            assert(r.queue.deep_view() =~= self.queue.deep_view());
        }
        r
    }
}

/// What the desktop is told first.
#[derive(Debug, PartialEq, Eq)]
pub struct BootstrapDto {
    /// The form of what is told.
    pub schema: &'static str,
    /// The version of the program.
    pub version: &'static str,
    /// Whether the tools are there.
    pub toolchain: ToolchainStatusDto,
    /// All that is shown.
    pub snapshot: SessionSnapshotDto,
}

/// What the desktop is told first.
pub struct BootstrapView {
    /// The form of what is told.
    pub schema: Seq<char>,
    /// The version of the program.
    pub version: Seq<char>,
    /// Whether the tools are there.
    pub toolchain: ToolchainStatusView,
    /// All that is shown.
    pub snapshot: SessionSnapshotView,
}

impl View for BootstrapDto {
    type V = BootstrapView;

    open spec fn view(&self) -> BootstrapView {
        BootstrapView {
            schema: self.schema@,
            version: self.version@,
            toolchain: self.toolchain@,
            snapshot: self.snapshot@,
        }
    }
}

impl DeepView for BootstrapDto {
    type V = BootstrapView;

    open spec fn deep_view(&self) -> BootstrapView {
        self@
    }
}

impl Clone for BootstrapDto {
    fn clone(&self) -> (r: Self)
        ensures
            r@ == self@,
    {
        let r = BootstrapDto {
            schema: self.schema,
            version: self.version,
            toolchain: self.toolchain.clone(),
            snapshot: self.snapshot.clone(),
        };
        r
    }
}

/// What the desktop is told later.
#[derive(Debug, PartialEq, Eq)]
pub enum GuiEventDto {
    /// All that is shown.
    Snapshot(Box<SessionSnapshotDto>),
    /// A message.
    Notice {
        /// How urgent it is.
        level: String,
        /// The message.
        message: String,
    },
    /// A menu item that was chosen.
    Menu {
        /// Which one.
        action: String,
    },
}

/// What the user picks.
#[derive(Debug, Clone, Copy, PartialEq, Eq, Structural)]
pub enum PickKindDto {
    /// Files.
    Files,
    /// A directory.
    Directory,
}

/// That something was accepted.
#[derive(Debug, Clone, Copy, PartialEq, Eq, Structural)]
pub struct AcceptedDto {
    /// Whether it was.
    pub accepted: bool,
}

impl AcceptedDto {
    /// It was.
    pub fn yes() -> (r: Self)
        ensures
            r.accepted,
    {
        AcceptedDto { accepted: true }
    }
}

/// Whether a menu item is passed on.
pub open spec fn is_passed_on(action: Seq<char>) -> bool {
    action == "add-files"@ || action == "add-directory"@ || action == "start-batch"@ || action
        == "cancel-batch"@ || action == "remove-selected"@
}

/// Whether a menu item is passed on.
pub fn is_menu_action(action: &str) -> (r: bool)
    ensures
        r == is_passed_on(action@),
{
    text::same(action, "add-files") || text::same(action, "add-directory") || text::same(
        action,
        "start-batch",
    ) || text::same(action, "cancel-batch") || text::same(action, "remove-selected")
}

/// A stream as it is told.
pub open spec fn track_told(stream: StreamInfoView, plan: Option<PlanOutcomeView>) -> TrackView {
    let common = stream.common();
    TrackView {
        index: common.index,
        kind: dto::kind_of(stream),
        codec: match stream {
            StreamInfoView::Audio(audio) => audio.codec.name(),
            _ => common.codec_name,
        },
        channels: match stream {
            StreamInfoView::Audio(audio) => Some(audio.channels.count),
            _ => None,
        },
        language: model::lookup(common.metadata, "language"@),
        title: model::lookup(common.metadata, "title"@),
        default: common.is_default(),
        action: session::action_text(plan, common.index),
    }
}

fn track_dto(stream: &StreamInfo, plan: &Option<PlanOutcome>) -> (r: TrackDto)
    ensures
        r@ == track_told(stream@, plan.deep_view()),
{
    let common = stream.common();
    let (codec, channels) = match stream {
        StreamInfo::Audio(audio) => (audio.codec().show(), Some(audio.channels().count().get())),
        _ => (common.codec_name().to_owned(), None),
    };
    TrackDto {
        index: stream.index().get(),
        kind: dto::stream_kind(stream).to_owned(),
        codec,
        channels,
        language: text::owned(common.metadata().get("language")),
        title: text::owned(common.metadata().get("title")),
        default: common.dispositions().is_default(),
        action: session::planned_action(plan, stream.index()).to_owned(),
    }
}

/// The streams of a file as they are told.
pub open spec fn tracks_told(
    media: Option<MediaInfoView>,
    plan: Option<PlanOutcomeView>,
) -> Seq<TrackView> {
    match media {
        Some(m) => Seq::new(m.streams.len(), |i: int| track_told(m.streams[i], plan)),
        None => seq![],
    }
}

/// The streams of a file as they are told.
pub fn track_dtos(media: &Option<MediaInfo>, plan: &Option<PlanOutcome>) -> (r: Vec<TrackDto>)
    ensures
        r.deep_view() == tracks_told(media.deep_view(), plan.deep_view()),
{
    let mut out: Vec<TrackDto> = Vec::new();
    let m = match media {
        Some(m) => m,
        None => {
            proof {
                assert(out.deep_view() =~= seq![]);
            }
            return out;
        },
    };
    let streams = m.streams();
    let ghost all = streams.deep_view();
    let mut i: usize = 0;
    while i < streams.len()
        invariant
            all == streams.deep_view(),
            i <= streams@.len(),
            out@.len() == i,
            forall|k: int|
                0 <= k < i ==> (#[trigger] out@[k])@ == track_told(all[k], plan.deep_view()),
        decreases streams@.len() - i,
    {
        proof {
            assert(all[i as int] == streams@[i as int]@);
        }
        out.push(track_dto(&streams[i], plan));
        i = i + 1;
    }
    proof {
        assert(out.deep_view() =~= tracks_told(media.deep_view(), plan.deep_view()));
    }
    out
}

/// A time in whole seconds.
pub open spec fn seconds_of(us: Option<u64>) -> Option<u64> {
    match us {
        Some(n) => Some((n / 1_000_000) as u64),
        None => None,
    }
}

/// A time in whole seconds.
pub fn whole_seconds(us: Option<u64>) -> (r: Option<u64>)
    ensures
        r == seconds_of(us),
{
    match us {
        Some(n) => Some(n / 1_000_000),
        None => None,
    }
}

/// A file of the queue as it is told.
pub open spec fn item_told(item: ItemView) -> QueueItemView {
    QueueItemView {
        id: item.id,
        name: session::shown_name(item.input),
        input_display: text::lossy(item.input),
        output_display: text::lossy(item.output),
        enabled: item.enabled,
        status: item.status.name(),
        progress_milli: item.progress_milli,
        eta_seconds: seconds_of(item.eta_us),
        plan: session::summary_text(item.plan),
        error: item.error,
        tracks: tracks_told(item.media, item.plan),
    }
}

/// A file of the queue as it is told.
pub fn item_dto(item: &QueueItem) -> (r: QueueItemDto)
    ensures
        r@ == item_told(item@),
{
    QueueItemDto {
        id: item.id,
        name: session::show_name(&item.input),
        input_display: item.input.display(),
        output_display: item.output.display(),
        enabled: item.enabled,
        status: item.status.as_str().to_owned(),
        progress_milli: item.progress_milli,
        eta_seconds: whole_seconds(item.eta_us),
        plan: session::plan_summary(&item.plan),
        error: text::copy_text(&item.error),
        tracks: track_dtos(&item.media, &item.plan),
    }
}

} // verus!
