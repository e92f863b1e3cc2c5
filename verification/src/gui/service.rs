//! A session on the desktop and what everything that happens comes to.
use std::collections::VecDeque;
use vstd::prelude::*;

use crate::ffmpeg::discovery::{ResolvedToolchain, ResolvedView};
use crate::gui::dto;
use crate::gui::dto::{
    AcceptedDto, AppPhaseDto, BootstrapDto, BootstrapView, QueueItemDto, SessionSnapshotDto,
    SessionSnapshotView, SettingsDto, SettingsView, ToolchainStatusDto, ToolchainStatusView,
};
use crate::media::{MediaInfo, MediaInfoView};
use crate::number;
use crate::path;
use crate::path::FilePath;
use crate::plan::OutputMode;
use crate::policy::{CompatibilityPolicy, PolicyView};
use crate::queue;
use crate::queue::{Interface, ItemView, QueueItem, QueueStatus};
use crate::runtime::batch;
use crate::runtime::batch::{
    BatchReport, BatchReportView, BatchRequest, BatchRequestView, BatchSnapshot, OptionsView,
    SchedulerError, SchedulerErrorView, SchedulerOptions, SnapshotView, MAX_CONCURRENCY,
};
use crate::runtime::config::{EffectiveConfig, EffectiveConfigView};
use crate::runtime::discovery::{DiscoveryRequest, DiscoveryRequestView};
use crate::runtime::prepare::FailurePolicy;
use crate::session;
use crate::session::{PlanSettings, PlanSettingsView, ProfileChoice, ProfileChoiceView};
use crate::target::{AudioTarget, TargetView};
use crate::text;

verus! {

/// How many messages are kept.
pub const LOG_CAPACITY: usize = 300;

/// How many files are inspected at once.
pub const PROBE_CONCURRENCY: usize = 4;

/// The form of what is told.
pub const GUI_SCHEMA: &'static str = "sonicmux.gui.v1";

/// What is said where files cannot be inspected.
pub const TOOLS_MISSING: &'static str = "FFmpeg is unavailable. Choose an installation, then retry these files.";

/// What is said where files cannot be inspected again.
pub const RETRY_NEEDS_TOOLS: &'static str = "Choose FFmpeg before retrying probes";

/// A session on the desktop.
#[derive(Debug)]
pub struct Session {
    /// What is going on.
    pub phase: AppPhaseDto,
    /// Whether the tools are there.
    pub toolchain: ToolchainStatusDto,
    /// The settings.
    pub settings: SettingsDto,
    /// The directory of outputs.
    pub output_directory: Option<FilePath>,
    /// The profiles that can be chosen.
    pub profiles: Vec<ProfileChoice>,
    /// The queue.
    pub queue: Vec<QueueItem>,
    /// The number of the next file.
    pub next_id: u64,
    /// How far the batch is in thousandths.
    pub progress_milli: Option<u16>,
    /// The seconds that the batch still needs.
    pub eta_seconds: Option<u64>,
    /// The numbers of the files of the batch.
    pub active_ids: Vec<u64>,
    /// Messages.
    pub logs: VecDeque<String>,
}

/// A session on the desktop.
pub struct SessionView {
    /// What is going on.
    pub phase: AppPhaseDto,
    /// Whether the tools are there.
    pub toolchain: ToolchainStatusView,
    /// The settings.
    pub settings: SettingsView,
    /// The directory of outputs.
    pub output_directory: Option<Seq<u8>>,
    /// The profiles that can be chosen.
    pub profiles: Seq<ProfileChoiceView>,
    /// The queue.
    pub queue: Seq<ItemView>,
    /// The number of the next file.
    pub next_id: u64,
    /// How far the batch is in thousandths.
    pub progress_milli: Option<u16>,
    /// The seconds that the batch still needs.
    pub eta_seconds: Option<u64>,
    /// The numbers of the files of the batch.
    pub active_ids: Seq<u64>,
    /// Messages.
    pub logs: Seq<Seq<char>>,
}

impl View for Session {
    type V = SessionView;

    open spec fn view(&self) -> SessionView {
        SessionView {
            phase: self.phase,
            toolchain: self.toolchain@,
            settings: self.settings@,
            output_directory: self.output_directory.deep_view(),
            profiles: self.profiles.deep_view(),
            queue: self.queue.deep_view(),
            next_id: self.next_id,
            progress_milli: self.progress_milli,
            eta_seconds: self.eta_seconds,
            active_ids: self.active_ids@,
            logs: self.logs.deep_view(),
        }
    }
}

/// What a failure means for the other files, as a setting says it.
pub open spec fn failure_policy_of(value: Seq<char>) -> Result<FailurePolicy, Seq<char>> {
    if value == "continue"@ {
        Ok(FailurePolicy::Continue)
    } else if value == "fail-fast"@ {
        Ok(FailurePolicy::FailFast)
    } else {
        Err("unsupported failure policy `"@ + value + "`"@)
    }
}

fn build_failure_policy(value: &str) -> (r: Result<FailurePolicy, String>)
    ensures
        match r {
            Ok(policy) => failure_policy_of(value@) == Ok::<FailurePolicy, Seq<char>>(policy),
            Err(message) => failure_policy_of(value@) == Err::<FailurePolicy, Seq<char>>(message@),
        },
{
    if text::same(value, "continue") {
        Ok(FailurePolicy::Continue)
    } else if text::same(value, "fail-fast") {
        Ok(FailurePolicy::FailFast)
    } else {
        Err(text::concat3("unsupported failure policy `", value, "`"))
    }
}

impl SettingsView {
    /// The target.
    pub open spec fn target(self) -> Result<TargetView, Seq<char>> {
        session::target_of(self.codec, self.bitrate, self.channels)
    }
}

/// Why settings cannot be used: the first of what is wrong with them.
pub open spec fn settings_fault(
    input: SettingsView,
    profiles: Seq<ProfileChoiceView>,
) -> Option<Seq<char>> {
    if session::choice_index(profiles, input.profile, 0) is None {
        Some("unknown device profile `"@ + input.profile + "`"@)
    } else if input.action != "convert"@ && input.action != "remux"@ {
        Some("action must be convert or remux"@)
    } else if !(1 <= input.jobs <= 64) {
        Some("jobs must be between 1 and 64"@)
    } else if input.storage_profile != "hdd"@ && input.storage_profile != "balanced"@
        && input.storage_profile != "nvme"@ {
        Some("storage profile must be hdd, balanced, or nvme"@)
    } else {
        match (
            input.target(),
            session::mode_of(input.mode),
            failure_policy_of(input.failure_policy),
        ) {
            (Err(message), _, _) => Some(message),
            (Ok(_), Err(message), _) => Some(message),
            (Ok(_), Ok(_), Err(message)) => Some(message),
            (Ok(_), Ok(_), Ok(_)) => None,
        }
    }
}

/// Whether settings can be used.
pub fn validate_settings(input: &SettingsDto, profiles: &Vec<ProfileChoice>) -> (r: Result<
    (),
    String,
>)
    ensures
        match r {
            Ok(_) => settings_fault(input@, profiles.deep_view()) is None,
            Err(message) => settings_fault(input@, profiles.deep_view()) == Some(message@),
        },
{
    if session::find_choice(profiles, input.profile.as_str()).is_none() {
        return Err(text::concat3("unknown device profile `", input.profile.as_str(), "`"));
    }
    if !text::same(input.action.as_str(), "convert") && !text::same(
        input.action.as_str(),
        "remux",
    ) {
        return Err("action must be convert or remux".to_owned());
    }
    if input.jobs < 1 || input.jobs > 64 {
        return Err("jobs must be between 1 and 64".to_owned());
    }
    let storage = input.storage_profile.as_str();
    if !text::same(storage, "hdd") && !text::same(storage, "balanced") && !text::same(
        storage,
        "nvme",
    ) {
        return Err("storage profile must be hdd, balanced, or nvme".to_owned());
    }
    match session::build_target(
        input.codec.as_str(),
        input.bitrate.as_str(),
        input.channels.as_str(),
    ) {
        Ok(_) => {},
        Err(message) => {
            return Err(message);
        },
    }
    match session::build_mode(input.mode.as_str()) {
        Ok(_) => {},
        Err(message) => {
            return Err(message);
        },
    }
    match build_failure_policy(input.failure_policy.as_str()) {
        Ok(_) => Ok(()),
        Err(message) => Err(message),
    }
}

/// The settings of a session that begins with a configuration.
pub open spec fn initial_settings(config: EffectiveConfigView) -> SettingsView {
    SettingsView {
        profile: config.profile.value,
        action: "convert"@,
        codec: config.codec.value,
        bitrate: config.bitrate.value,
        channels: config.channels.value,
        mode: config.mode.value,
        jobs: config.jobs.value,
        storage_profile: config.storage_profile.value,
        failure_policy: "continue"@,
        dry_run: false,
        output_directory: match config.output_directory {
            Some(directory) => Some(text::lossy(directory.value)),
            None => None,
        },
    }
}

/// What is told of tools that were found.
pub open spec fn found_status(resolved: ResolvedView) -> ToolchainStatusView {
    ToolchainStatusView {
        available: true,
        source: resolved.source.label(),
        detail: "FFmpeg: "@ + text::lossy(resolved.paths.ffmpeg),
    }
}

/// What is told of tools that were found.
pub fn toolchain_status(resolved: &ResolvedToolchain) -> (r: ToolchainStatusDto)
    ensures
        r@ == found_status(resolved@),
{
    ToolchainStatusDto {
        available: true,
        source: resolved.source().as_str().to_owned(),
        detail: text::concat2("FFmpeg: ", resolved.paths().ffmpeg().display().as_str()),
    }
}

/// What is told of tools that were looked for.
pub open spec fn startup_status(found: Result<ResolvedView, Seq<char>>) -> ToolchainStatusView {
    match found {
        Ok(resolved) => found_status(resolved),
        Err(error) => ToolchainStatusView {
            available: false,
            source: "missing"@,
            detail: error + ". Choose an FFmpeg installation or install it, then retry."@,
        },
    }
}

/// How the tools are looked for.
#[derive(Debug, Clone, Copy, PartialEq, Eq, Structural)]
pub enum ToolchainSearch {
    /// The user has chosen them.
    Chosen,
    /// They are looked for in the system.
    System,
}

/// How many different numbers there are.
pub open spec fn distinct(ids: Seq<u64>) -> nat
    decreases ids.len(),
{
    if ids.len() == 0 {
        0
    } else if ids.drop_last().contains(ids.last()) {
        distinct(ids.drop_last())
    } else {
        distinct(ids.drop_last()) + 1
    }
}

fn occurs(ids: &Vec<u64>, n: usize, id: u64) -> (r: bool)
    requires
        n <= ids@.len(),
    ensures
        r == ids@.take(n as int).contains(id),
{
    let ghost part = ids@.take(n as int);
    let mut i: usize = 0;
    while i < n
        invariant
            i <= n <= ids@.len(),
            part == ids@.take(n as int),
            forall|k: int| 0 <= k < i ==> part[k] != id,
        decreases n - i,
    {
        if ids[i] == id {
            proof {
                assert(part[i as int] == id);
            }
            return true;
        }
        i = i + 1;
    }
    false
}

fn count_distinct(ids: &Vec<u64>) -> (r: usize)
    ensures
        r == distinct(ids@),
{
    let mut count: usize = 0;
    let mut i: usize = 0;
    proof {
        assert(ids@.take(0) =~= seq![]);
    }
    while i < ids.len()
        invariant
            i <= ids@.len(),
            count <= i,
            count == distinct(ids@.take(i as int)),
        decreases ids@.len() - i,
    {
        proof {
            assert(ids@.take(i + 1).drop_last() =~= ids@.take(i as int));
        }
        if !occurs(ids, i, ids[i]) {
            count = count + 1;
        }
        i = i + 1;
    }
    proof {
        assert(ids@.take(i as int) =~= ids@);
    }
    count
}

/// The queue without the files of these numbers.
pub open spec fn without(queue: Seq<ItemView>, ids: Seq<u64>) -> Seq<ItemView>
    decreases queue.len(),
{
    if queue.len() == 0 {
        seq![]
    } else if ids.contains(queue.last().id) {
        without(queue.drop_last(), ids)
    } else {
        without(queue.drop_last(), ids).push(queue.last())
    }
}

fn leave_out(queue: &Vec<QueueItem>, ids: &Vec<u64>) -> (r: Vec<QueueItem>)
    ensures
        r.deep_view() == without(queue.deep_view(), ids@),
{
    let ghost all = queue.deep_view();
    let mut out: Vec<QueueItem> = Vec::new();
    let mut i: usize = 0;
    proof {
        assert(all.take(0) =~= seq![]);
        assert(out.deep_view() =~= seq![]);
        assert(ids@.take(ids@.len() as int) =~= ids@);
    }
    while i < queue.len()
        invariant
            all == queue.deep_view(),
            ids@.take(ids@.len() as int) == ids@,
            i <= queue@.len(),
            out.deep_view() == without(all.take(i as int), ids@),
        decreases queue@.len() - i,
    {
        let ghost before = out.deep_view();
        proof {
            assert(all.take(i + 1).drop_last() =~= all.take(i as int));
            assert(all.take(i + 1).last() == all[i as int]);
            assert(all[i as int] == queue@[i as int]@);
        }
        if !occurs(ids, ids.len(), queue[i].id) {
            let item = queue[i].clone();
            let ghost kept = item@;
            out.push(item);
            proof {
                assert(out.deep_view() =~= before.push(kept));
            }
        }
        i = i + 1;
    }
    proof {
        assert(all.take(i as int) =~= all);
    }
    out
}

/// The files that wait to be inspected, failed.
pub open spec fn probes_failed(queue: Seq<ItemView>) -> Seq<ItemView> {
    Seq::new(
        queue.len(),
        |i: int|
            if queue[i].status == QueueStatus::Probing {
                queue::unprobed_item(queue[i], TOOLS_MISSING@)
            } else {
                queue[i]
            },
    )
}

/// The files of a batch, failed.
pub open spec fn batch_failed(queue: Seq<ItemView>, message: Seq<char>) -> Seq<ItemView> {
    Seq::new(
        queue.len(),
        |i: int|
            if queue[i].status.in_batch() {
                queue::unprobed_item(queue[i], message)
            } else {
                queue[i]
            },
    )
}

impl SessionView {
    /// A session at its beginning.
    pub open spec fn begun(
        config: EffectiveConfigView,
        startup_error: Option<Seq<char>>,
        found: Result<ResolvedView, Seq<char>>,
    ) -> SessionView {
        let toolchain = startup_status(found);
        let ready = match found {
            Ok(resolved) => "FFmpeg ready from "@ + resolved.source.label(),
            Err(_) => "FFmpeg setup required"@,
        };
        SessionView {
            phase: if found is Ok {
                AppPhaseDto::Idle
            } else {
                AppPhaseDto::ToolchainSetup
            },
            toolchain,
            settings: initial_settings(config),
            output_directory: match config.output_directory {
                Some(directory) => Some(directory.value),
                None => None,
            },
            profiles: session::usable_choices(
                session::names_in(config),
                config.custom_profiles,
            ),
            queue: seq![],
            next_id: 0,
            progress_milli: None,
            eta_seconds: None,
            active_ids: seq![],
            logs: match startup_error {
                Some(error) => seq!["configuration fallback: "@ + error, ready],
                None => seq![ready],
            },
        }
    }

    /// The session with a message kept.
    pub open spec fn logging(self, message: Seq<char>) -> SessionView {
        SessionView { logs: session::logged(self.logs, message, LOG_CAPACITY as nat), ..self }
    }

    /// Whether nothing is going on.
    pub open spec fn is_idle(self) -> bool {
        self.phase == AppPhaseDto::Idle || self.phase == AppPhaseDto::ToolchainSetup
    }

    /// Whether a batch is not over.
    pub open spec fn is_active(self) -> bool {
        self.phase == AppPhaseDto::Running || self.phase == AppPhaseDto::Cancelling
    }

    /// What is said where something is going on.
    pub open spec fn busy_message() -> Seq<char> {
        "Wait for the active operation and cleanup to finish."@
    }

    /// Whether a batch can be started.
    pub open spec fn can_start(self) -> bool {
        self.phase == AppPhaseDto::Idle && queue::startable(self.queue)
    }

    /// The rules of the profile that is chosen.
    pub open spec fn policy(self) -> PolicyView {
        match session::choice_index(self.profiles, self.settings.profile, 0) {
            Some(i) => self.profiles[i].policy,
            None => session::generic_policy(),
        }
    }

    /// What plans depend on.
    pub open spec fn planning(self) -> PlanSettingsView {
        PlanSettingsView {
            policy: self.policy(),
            target: self.settings.target(),
            mode: session::mode_of(self.settings.mode),
            remux: self.settings.action == "remux"@,
            output_directory: self.output_directory,
        }
    }

    /// The session with all outputs and plans made again.
    pub open spec fn rebuilt(self) -> SessionView {
        SessionView {
            queue: queue::rebuilt(self.queue, self.planning(), Interface::Desktop),
            ..self
        }
    }

    /// All that is shown.
    pub open spec fn snapshot(self) -> SessionSnapshotView {
        SessionSnapshotView {
            phase: self.phase,
            queue: Seq::new(self.queue.len(), |i: int| dto::item_told(self.queue[i])),
            settings: self.settings,
            profiles: Seq::new(self.profiles.len(), |i: int| self.profiles[i].name),
            can_start: self.can_start(),
            progress_milli: self.progress_milli,
            eta_seconds: self.eta_seconds,
            logs: self.logs,
        }
    }

    /// The session while files are looked for.
    pub open spec fn discovering(self, roots: nat) -> SessionView {
        SessionView { phase: AppPhaseDto::Probing, ..self }.logging(
            "discovering "@ + number::decimal(roots as int) + " selected root(s)"@,
        )
    }

    /// The session with files added.
    pub open spec fn added(self, inputs: Seq<Seq<u8>>) -> SessionView {
        let after = queue::enqueued(
            self.queue,
            self.next_id,
            inputs,
            self.output_directory,
            Interface::Desktop,
        );
        SessionView { queue: after.queue, next_id: after.next_id, ..self }.logging(
            number::decimal(after.fresh.len() as int) + " new MKV file(s) queued for probe"@,
        )
    }

    /// The session where files cannot be inspected.
    pub open spec fn without_tools(self) -> SessionView {
        SessionView {
            queue: probes_failed(self.queue),
            phase: AppPhaseDto::ToolchainSetup,
            ..self
        }
    }

    /// The session after a file was inspected.
    pub open spec fn probed(self, id: u64, result: Result<MediaInfoView, Seq<char>>) -> SessionView {
        match queue::index_of(self.queue, id, 0) {
            None => self,
            Some(i) => SessionView {
                queue: self.queue.update(
                    i,
                    match result {
                        Ok(media) => queue::replanned_item(
                            ItemView { media: Some(media), ..self.queue[i] },
                            self.planning(),
                            Interface::Desktop,
                        ),
                        Err(error) => queue::unprobed_item(
                            self.queue[i],
                            error + ". Verify the MKV and retry."@,
                        ),
                    },
                ),
                ..self
            },
        }
    }

    /// The session after all files were inspected.
    pub open spec fn probes_over(self, tools: bool, error: Option<Seq<char>>) -> SessionView {
        SessionView {
            phase: if tools {
                AppPhaseDto::Idle
            } else {
                AppPhaseDto::ToolchainSetup
            },
            ..self
        }.logging(
            match error {
                Some(message) => "discovery failed: "@ + message,
                None => "probe pass finished"@,
            },
        )
    }

    /// The session without some files.
    pub open spec fn removed(self, ids: Seq<u64>) -> SessionView {
        SessionView { queue: without(self.queue, ids), ..self }.logging(
            "removed "@ + number::decimal(distinct(ids) as int) + " queue item(s)"@,
        )
    }

    /// Why a file cannot be enabled.
    pub open spec fn enabling_fault(self, id: u64) -> Option<Seq<char>> {
        if !self.is_idle() {
            Some(SessionView::busy_message())
        } else if queue::index_of(self.queue, id, 0) is None {
            Some("queue item "@ + number::decimal(id as int) + " no longer exists"@)
        } else {
            None
        }
    }

    /// The session with a file enabled or not.
    pub open spec fn enabling(self, id: u64, enabled: bool) -> SessionView {
        let i = queue::index_of(self.queue, id, 0)->0;
        SessionView {
            queue: self.queue.update(i, ItemView { enabled, ..self.queue[i] }),
            ..self
        }
    }

    /// The settings that are asked for; the directory of outputs stays.
    pub open spec fn asked_settings(self, input: SettingsView) -> SettingsView {
        SettingsView { output_directory: self.settings.output_directory, ..input }
    }

    /// Why settings cannot be changed.
    pub open spec fn update_fault(self, input: SettingsView) -> Option<Seq<char>> {
        if !self.is_idle() {
            Some(SessionView::busy_message())
        } else {
            settings_fault(self.asked_settings(input), self.profiles)
        }
    }

    /// The session with other settings.
    pub open spec fn with_settings(self, input: SettingsView) -> SessionView {
        SessionView { settings: self.asked_settings(input), ..self }.rebuilt().logging(
            "session settings updated; plans rebuilt"@,
        )
    }

    /// Why the directory of outputs cannot be changed.
    pub open spec fn directory_fault(self, directory: Seq<u8>, is_directory: bool) -> Option<Seq<char>> {
        if !is_directory {
            Some("output directory does not exist: "@ + text::lossy(directory))
        } else if !self.is_idle() {
            Some(SessionView::busy_message())
        } else {
            None
        }
    }

    /// The session with another directory of outputs.
    pub open spec fn with_directory(self, directory: Seq<u8>) -> SessionView {
        SessionView {
            output_directory: Some(directory),
            settings: SettingsView {
                output_directory: Some(text::lossy(directory)),
                ..self.settings
            },
            ..self
        }.rebuilt().logging("output directory changed; plans rebuilt"@)
    }

    /// The session with tools that were found.
    pub open spec fn with_tools(self, resolved: ResolvedView, search: ToolchainSearch) -> SessionView {
        SessionView {
            toolchain: found_status(resolved),
            phase: if self.phase == AppPhaseDto::ToolchainSetup {
                AppPhaseDto::Idle
            } else {
                self.phase
            },
            ..self
        }.logging(
            match search {
                ToolchainSearch::Chosen => "FFmpeg installation selected for this session"@,
                ToolchainSearch::System => "system FFmpeg search succeeded"@,
            },
        )
    }

    /// The session with the enabled files given to a batch, and the batch, or why there is none.
    pub open spec fn batch_built(self, tools: bool) -> (SessionView, Result<BatchRequestView, Seq<char>>) {
        if !tools {
            (self, Err("FFmpeg setup is required before starting"@))
        } else if !self.is_idle() {
            (self, Err(SessionView::busy_message()))
        } else if !self.can_start() {
            (
                self,
                Err("Enable at least one ready item or resolve its probe error before starting."@),
            )
        } else {
            match (self.settings.target(), session::mode_of(self.settings.mode)) {
                (Err(message), _) => (self, Err(message)),
                (Ok(_), Err(message)) => (self, Err(message)),
                (Ok(target), Ok(output_mode)) => self.batch_given(target, output_mode),
            }
        }
    }

    /// The session with the enabled files given to a batch, and the batch, or why there is none,
    /// once the target and the mode are known.
    pub open spec fn batch_given(self, target: TargetView, output_mode: OutputMode) -> (
        SessionView,
        Result<BatchRequestView, Seq<char>>,
    ) {
        let jobs = self.settings.jobs;
        let files = queue::requests_for(
            self.queue,
            self.policy(),
            target,
            output_mode,
            self.settings.action == "remux"@,
        );
        let given = SessionView {
            queue: queue::started(self.queue, Interface::Desktop),
            active_ids: queue::enabled_ids(self.queue),
            ..self
        };
        match failure_policy_of(self.settings.failure_policy) {
            _ if jobs == 0 => (given, Err("jobs must be at least one"@)),
            Err(message) => (given, Err(message)),
            Ok(failure_policy) => if jobs > MAX_CONCURRENCY {
                (
                    given,
                    Err(
                        (SchedulerErrorView::InvalidConcurrency {
                            value: jobs,
                            maximum: MAX_CONCURRENCY,
                        }).message(),
                    ),
                )
            } else {
                (
                    SessionView {
                        phase: AppPhaseDto::Running,
                        progress_milli: Some(0u16),
                        eta_seconds: None,
                        ..given
                    }.logging(
                        "batch started with "@ + number::decimal(files.len() as int)
                            + " file(s)"@,
                    ),
                    Ok(
                        BatchRequestView {
                            files,
                            options: OptionsView {
                                max_concurrency: jobs,
                                failure_policy,
                                dry_run: self.settings.dry_run,
                            },
                        },
                    ),
                )
            },
        }
    }

    /// The session while its batch is being cancelled.
    pub open spec fn cancelling(self) -> SessionView {
        SessionView { phase: AppPhaseDto::Cancelling, ..self }.logging(
            "cancellation requested; waiting for cleanup"@,
        )
    }

    /// The session with files tried again.
    pub open spec fn retried(self, ids: Seq<u64>) -> SessionView {
        let after = SessionView {
            queue: queue::retried(self.queue, Some(ids)),
            ..self
        }.rebuilt();
        if queue::reprobed(self.queue, Some(ids)).len() > 0 {
            SessionView { phase: AppPhaseDto::Probing, ..after }
        } else {
            after
        }
    }

    /// The session as its batch shows it.
    pub open spec fn shown(self, snapshot: SnapshotView) -> SessionView {
        SessionView {
            progress_milli: snapshot.progress_milli,
            eta_seconds: dto::seconds_of(snapshot.eta_us),
            queue: queue::shown(self.queue, self.active_ids, snapshot.files),
            ..self
        }
    }

    /// The session after a batch.
    pub open spec fn finished(self, report: BatchReportView) -> SessionView {
        SessionView {
            queue: queue::concluded(
                self.queue,
                self.active_ids,
                report.results,
                Interface::Desktop,
            ),
            phase: AppPhaseDto::Idle,
            progress_milli: Some(1_000u16),
            eta_seconds: Some(0u64),
            active_ids: seq![],
            ..self
        }.logging(
            "batch finished with "@ + number::decimal(batch::failures(report.results) as int)
                + " failure(s)"@,
        )
    }

    /// The session after a batch that could not be worked on.
    pub open spec fn failed(self, message: Seq<char>) -> SessionView {
        SessionView {
            phase: AppPhaseDto::Idle,
            queue: batch_failed(self.queue, message),
            ..self
        }.logging(message)
    }
}

/// What is told of tools that were looked for.
pub open spec fn found_told(found: Result<ResolvedToolchain, String>) -> Result<
    ResolvedView,
    Seq<char>,
> {
    session::text_result(found)
}

impl Session {
    /// A session that begins with a configuration, what was wrong with the configuration file and
    /// the tools that were found.
    pub fn load(
        config: &EffectiveConfig,
        startup_error: Option<String>,
        found: &Result<ResolvedToolchain, String>,
    ) -> (r: Self)
        ensures
            r@ == SessionView::begun(
                config@,
                startup_error.deep_view(),
                found_told(*found),
            ),
    {
        let ghost begun = SessionView::begun(
            config@,
            startup_error.deep_view(),
            found_told(*found),
        );
        let mut logs: VecDeque<String> = VecDeque::new();
        match startup_error {
            Some(error) => {
                logs.push_back(text::concat2("configuration fallback: ", error.as_str()));
            },
            None => {},
        }
        let (phase, toolchain) = match found {
            Ok(resolved) => {
                logs.push_back(
                    text::concat2("FFmpeg ready from ", resolved.source().as_str()),
                );
                (AppPhaseDto::Idle, toolchain_status(resolved))
            },
            Err(error) => {
                logs.push_back("FFmpeg setup required".to_owned());
                (
                    AppPhaseDto::ToolchainSetup,
                    ToolchainStatusDto {
                        available: false,
                        source: "missing".to_owned(),
                        detail: text::concat2(
                            error.as_str(),
                            ". Choose an FFmpeg installation or install it, then retry.",
                        ),
                    },
                )
            },
        };
        let output_directory = match &config.output_directory {
            Some(directory) => Some(directory.value().clone()),
            None => None,
        };
        let shown_directory = match &output_directory {
            Some(directory) => Some(directory.display()),
            None => None,
        };
        let settings = SettingsDto {
            profile: config.profile.value().clone(),
            action: "convert".to_owned(),
            codec: config.codec.value().clone(),
            bitrate: config.bitrate.value().clone(),
            channels: config.channels.value().clone(),
            mode: config.mode.value().clone(),
            jobs: *config.jobs.value(),
            storage_profile: config.storage_profile.value().clone(),
            failure_policy: "continue".to_owned(),
            dry_run: false,
            output_directory: shown_directory,
        };
        let r = Session {
            phase,
            toolchain,
            settings,
            output_directory,
            profiles: session::list_usable_choices(config),
            queue: Vec::new(),
            next_id: 0,
            progress_milli: None,
            eta_seconds: None,
            active_ids: Vec::new(),
            logs,
        };
        proof {
            assert(r.queue.deep_view() =~= Seq::<ItemView>::empty());
            assert(r.active_ids@ =~= Seq::<u64>::empty());
            assert(r.logs.deep_view() =~= begun.logs);
        }
        r
    }

    fn log(&mut self, message: String)
        ensures
            final(self)@ == old(self)@.logging(message@),
    {
        session::append_log(&mut self.logs, message, LOG_CAPACITY);
    }

    fn ensure_idle(&self) -> (r: Result<(), String>)
        ensures
            match r {
                Ok(_) => self@.is_idle(),
                Err(message) => !self@.is_idle() && message@ == SessionView::busy_message(),
            },
    {
        match self.phase {
            AppPhaseDto::Idle => Ok(()),
            AppPhaseDto::ToolchainSetup => Ok(()),
            _ => Err("Wait for the active operation and cleanup to finish.".to_owned()),
        }
    }

    /// Whether a batch is not over.
    pub fn is_active(&self) -> (r: bool)
        ensures
            r == self@.is_active(),
    {
        match self.phase {
            AppPhaseDto::Running => true,
            AppPhaseDto::Cancelling => true,
            _ => false,
        }
    }

    /// Whether a batch can be started.
    pub fn can_start(&self) -> (r: bool)
        ensures
            r == self@.can_start(),
    {
        match self.phase {
            AppPhaseDto::Idle => queue::can_start(&self.queue),
            _ => false,
        }
    }

    fn policy(&self) -> (r: CompatibilityPolicy)
        ensures
            r@ == self@.policy(),
    {
        let ghost all = self.profiles.deep_view();
        match session::find_choice(&self.profiles, self.settings.profile.as_str()) {
            Some(i) => {
                proof {
                    assert(all[i as int] == self.profiles@[i as int]@);
                }
                self.profiles[i].policy.clone()
            },
            None => session::fallback_policy(),
        }
    }

    fn target(&self) -> (r: Result<AudioTarget, String>)
        ensures
            session::text_result(r) == self@.settings.target(),
    {
        session::build_target(
            self.settings.codec.as_str(),
            self.settings.bitrate.as_str(),
            self.settings.channels.as_str(),
        )
    }

    fn planning(&self) -> (r: PlanSettings)
        ensures
            r@ == self@.planning(),
    {
        PlanSettings {
            policy: self.policy(),
            target: self.target(),
            mode: session::build_mode(self.settings.mode.as_str()),
            remux: text::same(self.settings.action.as_str(), "remux"),
            output_directory: path::copy_path(&self.output_directory),
        }
    }

    fn rebuild_all_plans(&mut self)
        ensures
            final(self)@ == old(self)@.rebuilt(),
    {
        let planning = self.planning();
        queue::rebuild(&mut self.queue, &planning, Interface::Desktop);
    }

    /// All that is shown.
    pub fn snapshot(&self) -> (r: SessionSnapshotDto)
        ensures
            r@ == self@.snapshot(),
    {
        let ghost items = self.queue.deep_view();
        let mut rows: Vec<QueueItemDto> = Vec::new();
        let mut i: usize = 0;
        while i < self.queue.len()
            invariant
                items == self.queue.deep_view(),
                i <= self.queue@.len(),
                rows@.len() == i,
                forall|k: int| 0 <= k < i ==> (#[trigger] rows@[k])@ == dto::item_told(items[k]),
            decreases self.queue@.len() - i,
        {
            proof {
                assert(items[i as int] == self.queue@[i as int]@);
            }
            rows.push(dto::item_dto(&self.queue[i]));
            i = i + 1;
        }
        let ghost choices = self.profiles.deep_view();
        let mut names: Vec<String> = Vec::new();
        let mut j: usize = 0;
        while j < self.profiles.len()
            invariant
                choices == self.profiles.deep_view(),
                j <= self.profiles@.len(),
                names@.len() == j,
                forall|k: int| 0 <= k < j ==> (#[trigger] names@[k])@ == choices[k].name,
            decreases self.profiles@.len() - j,
        {
            proof {
                assert(choices[j as int] == self.profiles@[j as int]@);
            }
            names.push(self.profiles[j].name.clone());
            j = j + 1;
        }
        let ghost lines = self.logs.deep_view();
        let mut logs: Vec<String> = Vec::new();
        let mut l: usize = 0;
        while l < self.logs.len()
            invariant
                lines == self.logs.deep_view(),
                l <= self.logs@.len(),
                logs@.len() == l,
                forall|k: int| 0 <= k < l ==> (#[trigger] logs@[k])@ == lines[k],
            decreases self.logs@.len() - l,
        {
            proof {
                assert(lines[l as int] == self.logs@[l as int]@);
            }
            logs.push(self.logs[l].clone());
            l = l + 1;
        }
        proof {
            let told = self@.snapshot();
            assert(rows.deep_view() =~= told.queue);
            assert(names.deep_view() =~= told.profiles);
            assert(logs.deep_view() =~= told.logs);
        }
        SessionSnapshotDto {
            phase: self.phase,
            queue: rows,
            settings: self.settings.clone(),
            profiles: names,
            can_start: self.can_start(),
            progress_milli: self.progress_milli,
            eta_seconds: self.eta_seconds,
            logs,
        }
    }

    /// What the desktop is told first.
    pub fn bootstrap(&self, version: &'static str) -> (r: BootstrapDto)
        ensures
            r@ == (BootstrapView {
                schema: GUI_SCHEMA@,
                version: version@,
                toolchain: self@.toolchain,
                snapshot: self@.snapshot(),
            }),
    {
        BootstrapDto {
            schema: GUI_SCHEMA,
            version,
            toolchain: self.toolchain.clone(),
            snapshot: self.snapshot(),
        }
    }

    /// Begins to look for files: nothing is looked for where nothing was picked.
    pub fn add_roots(&mut self, roots: Vec<FilePath>) -> (r: Result<
        Option<DiscoveryRequest>,
        String,
    >)
        ensures
            match r {
                Ok(None) => roots@.len() == 0 && final(self)@ == old(self)@,
                Ok(Some(request)) => roots@.len() > 0 && old(self)@.is_idle() && final(self)@
                    == old(self)@.discovering(roots@.len()) && request@ == (DiscoveryRequestView {
                    roots: roots.deep_view(),
                    recursive: false,
                    follow_links: false,
                    includes: seq![],
                    excludes: seq![],
                }),
                Err(message) => roots@.len() > 0 && !old(self)@.is_idle() && final(self)@
                    == old(self)@ && message@ == SessionView::busy_message(),
            },
    {
        if roots.len() == 0 {
            return Ok(None);
        }
        match self.ensure_idle() {
            Ok(_) => {},
            Err(message) => {
                return Err(message);
            },
        }
        self.phase = AppPhaseDto::Probing;
        self.log(
            text::concat3(
                "discovering ",
                number::show_usize(roots.len()).as_str(),
                " selected root(s)",
            ),
        );
        let request = DiscoveryRequest {
            roots,
            recursive: false,
            follow_links: false,
            includes: Vec::new(),
            excludes: Vec::new(),
        };
        proof {
            assert(request.includes.deep_view() =~= Seq::<Seq<char>>::empty());
            assert(request.excludes.deep_view() =~= Seq::<Seq<char>>::empty());
        }
        Ok(Some(request))
    }

    /// Adds files that were found, and tells which are to be inspected.
    pub fn add_discovered(&mut self, inputs: &Vec<FilePath>) -> (r: Vec<(u64, FilePath)>)
        ensures
            final(self)@ == old(self)@.added(inputs.deep_view()),
            queue::fresh_told(r@) == queue::enqueued(
                old(self)@.queue,
                old(self)@.next_id,
                inputs.deep_view(),
                old(self)@.output_directory,
                Interface::Desktop,
            ).fresh,
    {
        let added = queue::enqueue(
            &mut self.queue,
            self.next_id,
            inputs,
            &self.output_directory,
            Interface::Desktop,
        );
        self.next_id = added.0;
        proof {
            assert(queue::fresh_told(added.1@).len() == added.1@.len());
        }
        self.log(
            text::concat2(
                number::show_usize(added.1.len()).as_str(),
                " new MKV file(s) queued for probe",
            ),
        );
        added.1
    }

    /// Takes that files cannot be inspected, and tells what is said.
    pub fn refuse_probes(&mut self) -> (r: String)
        ensures
            final(self)@ == old(self)@.without_tools(),
            r@ == TOOLS_MISSING@,
    {
        let ghost start = self.queue.deep_view();
        let ghost others = self@;
        let n: usize = self.queue.len();
        let mut i: usize = 0;
        while i < n
            invariant
                self@ == (SessionView { queue: self@.queue, ..others }),
                n == self.queue@.len(),
                n == start.len(),
                i <= n,
                forall|k: int|
                    0 <= k < i ==> (#[trigger] self.queue.deep_view()[k]) == probes_failed(start)[k],
                forall|k: int| i <= k < n ==> (#[trigger] self.queue.deep_view()[k]) == start[k],
            decreases n - i,
        {
            proof {
                assert(self.queue.deep_view()[i as int] == self.queue@[i as int]@);
            }
            match self.queue[i].status {
                QueueStatus::Probing => {
                    queue::set_unprobed(&mut self.queue, i, TOOLS_MISSING.to_owned());
                },
                _ => {},
            }
            i = i + 1;
        }
        self.phase = AppPhaseDto::ToolchainSetup;
        proof {
            assert(self.queue.deep_view() =~= probes_failed(start));
        }
        TOOLS_MISSING.to_owned()
    }

    /// Takes what was found in a file.
    pub fn apply_probe_result(&mut self, id: u64, result: Result<MediaInfo, String>)
        ensures
            final(self)@ == old(self)@.probed(id, session::text_result(result)),
    {
        let i: usize = match queue::find_item(&self.queue, id) {
            Some(i) => i,
            None => {
                return;
            },
        };
        match result {
            Ok(media) => {
                let planning = self.planning();
                queue::set_media(&mut self.queue, i, media, &planning, Interface::Desktop);
            },
            Err(error) => {
                queue::set_unprobed(
                    &mut self.queue,
                    i,
                    text::concat2(error.as_str(), ". Verify the MKV and retry."),
                );
            },
        }
    }

    /// Ends the inspection of files, given whether the tools are there and what went wrong.
    pub fn finish_probe_phase(&mut self, tools: bool, error: Option<String>)
        ensures
            final(self)@ == old(self)@.probes_over(tools, error.deep_view()),
    {
        self.phase = if tools {
            AppPhaseDto::Idle
        } else {
            AppPhaseDto::ToolchainSetup
        };
        match error {
            Some(message) => self.log(text::concat2("discovery failed: ", message.as_str())),
            None => self.log("probe pass finished".to_owned()),
        }
    }

    /// Takes files out of the queue.
    pub fn remove_items(&mut self, ids: &Vec<u64>) -> (r: Result<(), String>)
        ensures
            match r {
                Ok(_) => old(self)@.is_idle() && final(self)@ == old(self)@.removed(ids@),
                Err(message) => !old(self)@.is_idle() && final(self)@ == old(self)@ && message@
                    == SessionView::busy_message(),
            },
    {
        match self.ensure_idle() {
            Ok(_) => {},
            Err(message) => {
                return Err(message);
            },
        }
        self.queue = leave_out(&self.queue, ids);
        self.log(
            text::concat3(
                "removed ",
                number::show_usize(count_distinct(ids)).as_str(),
                " queue item(s)",
            ),
        );
        Ok(())
    }

    /// Enables a file, or not any more.
    pub fn set_item_enabled(&mut self, id: u64, enabled: bool) -> (r: Result<(), String>)
        ensures
            match r {
                Ok(_) => old(self)@.enabling_fault(id) is None && final(self)@
                    == old(self)@.enabling(id, enabled),
                Err(message) => old(self)@.enabling_fault(id) == Some(message@) && final(self)@
                    == old(self)@,
            },
    {
        match self.ensure_idle() {
            Ok(_) => {},
            Err(message) => {
                return Err(message);
            },
        }
        match queue::find_item(&self.queue, id) {
            Some(i) => {
                queue::set_enabled(&mut self.queue, i, enabled);
                Ok(())
            },
            None => Err(
                text::concat3(
                    "queue item ",
                    number::show_u64(id).as_str(),
                    " no longer exists",
                ),
            ),
        }
    }

    /// Changes the settings.
    pub fn update_settings(&mut self, input: SettingsDto) -> (r: Result<(), String>)
        ensures
            match r {
                Ok(_) => old(self)@.update_fault(input@) is None && final(self)@
                    == old(self)@.with_settings(input@),
                Err(message) => old(self)@.update_fault(input@) == Some(message@) && final(self)@
                    == old(self)@,
            },
    {
        match self.ensure_idle() {
            Ok(_) => {},
            Err(message) => {
                return Err(message);
            },
        }
        let mut asked = input;
        asked.output_directory = text::copy_text(&self.settings.output_directory);
        match validate_settings(&asked, &self.profiles) {
            Ok(_) => {},
            Err(message) => {
                return Err(message);
            },
        }
        self.settings = asked;
        self.rebuild_all_plans();
        self.log("session settings updated; plans rebuilt".to_owned());
        Ok(())
    }

    /// Changes the directory of outputs, given whether it is there.
    pub fn set_output_directory(&mut self, directory: FilePath, is_directory: bool) -> (r: Result<
        (),
        String,
    >)
        ensures
            match r {
                Ok(_) => old(self)@.directory_fault(directory@, is_directory) is None
                    && final(self)@ == old(self)@.with_directory(directory@),
                Err(message) => old(self)@.directory_fault(directory@, is_directory) == Some(
                    message@,
                ) && final(self)@ == old(self)@,
            },
    {
        if !is_directory {
            return Err(
                text::concat2("output directory does not exist: ", directory.display().as_str()),
            );
        }
        match self.ensure_idle() {
            Ok(_) => {},
            Err(message) => {
                return Err(message);
            },
        }
        self.settings.output_directory = Some(directory.display());
        self.output_directory = Some(directory);
        self.rebuild_all_plans();
        self.log("output directory changed; plans rebuilt".to_owned());
        Ok(())
    }

    /// Takes the tools that were found, or says what to do.
    pub fn take_toolchain(
        &mut self,
        found: &Result<ResolvedToolchain, String>,
        search: ToolchainSearch,
    ) -> (r: Result<ToolchainStatusDto, String>)
        ensures
            match (found_told(*found), r) {
                (Ok(resolved), Ok(status)) => status@ == found_status(resolved) && final(self)@
                    == old(self)@.with_tools(resolved, search),
                (Err(error), Err(message)) => final(self)@ == old(self)@ && message@ == error
                    + match search {
                    ToolchainSearch::Chosen => ". Choose the ffmpeg executable next to ffprobe."@,
                    ToolchainSearch::System => ". Install both FFmpeg and FFprobe, then retry."@,
                },
                _ => false,
            },
    {
        match found {
            Ok(resolved) => {
                let status = toolchain_status(resolved);
                self.toolchain = status.clone();
                match self.phase {
                    AppPhaseDto::ToolchainSetup => {
                        self.phase = AppPhaseDto::Idle;
                    },
                    _ => {},
                }
                match search {
                    ToolchainSearch::Chosen => self.log(
                        "FFmpeg installation selected for this session".to_owned(),
                    ),
                    ToolchainSearch::System => self.log(
                        "system FFmpeg search succeeded".to_owned(),
                    ),
                }
                Ok(status)
            },
            Err(error) => match search {
                ToolchainSearch::Chosen => Err(
                    text::concat2(
                        error.as_str(),
                        ". Choose the ffmpeg executable next to ffprobe.",
                    ),
                ),
                ToolchainSearch::System => Err(
                    text::concat2(
                        error.as_str(),
                        ". Install both FFmpeg and FFprobe, then retry.",
                    ),
                ),
            },
        }
    }

    fn give_batch(&mut self, target: AudioTarget, output_mode: OutputMode) -> (r: Result<
        BatchRequest,
        String,
    >)
        ensures
            final(self)@ == old(self)@.batch_given(target@, output_mode).0,
            session::text_result(r) == old(self)@.batch_given(target@, output_mode).1,
    {
        let policy = self.policy();
        let remux = text::same(self.settings.action.as_str(), "remux");
        let given = queue::start(
            &mut self.queue,
            &policy,
            target,
            output_mode,
            remux,
            Interface::Desktop,
        );
        self.active_ids = given.0;
        if self.settings.jobs == 0 {
            return Err("jobs must be at least one".to_owned());
        }
        let failure_policy = match build_failure_policy(self.settings.failure_policy.as_str()) {
            Ok(policy) => policy,
            Err(message) => {
                return Err(message);
            },
        };
        let options = match SchedulerOptions::new(
            self.settings.jobs,
            failure_policy,
            self.settings.dry_run,
        ) {
            Ok(options) => options,
            Err(e) => {
                return Err(e.message());
            },
        };
        proof {
            assert(given.1.deep_view().len() == given.1@.len());
        }
        self.phase = AppPhaseDto::Running;
        self.progress_milli = Some(0);
        self.eta_seconds = None;
        self.log(
            text::concat3(
                "batch started with ",
                number::show_usize(given.1.len()).as_str(),
                " file(s)",
            ),
        );
        Ok(BatchRequest::new(given.1, options))
    }

    /// Gives the enabled files to a batch, given whether the tools are there.
    pub fn start_batch(&mut self, tools: bool) -> (r: Result<BatchRequest, String>)
        ensures
            final(self)@ == old(self)@.batch_built(tools).0,
            session::text_result(r) == old(self)@.batch_built(tools).1,
    {
        if !tools {
            return Err("FFmpeg setup is required before starting".to_owned());
        }
        match self.ensure_idle() {
            Ok(_) => {},
            Err(message) => {
                return Err(message);
            },
        }
        if !self.can_start() {
            return Err(
                "Enable at least one ready item or resolve its probe error before starting.".to_owned(),
            );
        }
        let target = match self.target() {
            Ok(target) => target,
            Err(message) => {
                return Err(message);
            },
        };
        let output_mode = match session::build_mode(self.settings.mode.as_str()) {
            Ok(mode) => mode,
            Err(message) => {
                return Err(message);
            },
        };
        self.give_batch(target, output_mode)
    }

    /// Takes the wish to cancel the batch.
    pub fn cancel_batch(&mut self) -> (r: Result<AcceptedDto, String>)
        ensures
            match r {
                Ok(accepted) => accepted.accepted && old(self)@.phase == AppPhaseDto::Running
                    && final(self)@ == old(self)@.cancelling(),
                Err(message) => old(self)@.phase != AppPhaseDto::Running && final(self)@
                    == old(self)@ && message@ == "no active batch to cancel"@,
            },
    {
        match self.phase {
            AppPhaseDto::Running => {
                self.phase = AppPhaseDto::Cancelling;
                self.log("cancellation requested; waiting for cleanup".to_owned());
                Ok(AcceptedDto::yes())
            },
            _ => Err("no active batch to cancel".to_owned()),
        }
    }

    /// Tries files again, and tells which are to be inspected.
    pub fn retry_items(&mut self, ids: &Vec<u64>) -> (r: Result<Vec<(u64, FilePath)>, String>)
        ensures
            match r {
                Ok(files) => old(self)@.is_idle() && final(self)@ == old(self)@.retried(ids@)
                    && queue::fresh_told(files@) == queue::reprobed(
                    old(self)@.queue,
                    Some(ids@),
                ),
                Err(message) => !old(self)@.is_idle() && final(self)@ == old(self)@ && message@
                    == SessionView::busy_message(),
            },
    {
        match self.ensure_idle() {
            Ok(_) => {},
            Err(message) => {
                return Err(message);
            },
        }
        let files = queue::retry(&mut self.queue, Some(ids));
        self.rebuild_all_plans();
        proof {
            assert(queue::fresh_told(files@).len() == files@.len());
        }
        if files.len() > 0 {
            self.phase = AppPhaseDto::Probing;
        }
        Ok(files)
    }

    /// Shows how far the batch is.
    pub fn apply_batch_snapshot(&mut self, snapshot: &BatchSnapshot)
        ensures
            final(self)@ == old(self)@.shown(snapshot@),
    {
        self.progress_milli = snapshot.progress_milli();
        self.eta_seconds = dto::whole_seconds(
            match snapshot.eta() {
                Some(d) => Some(d.get()),
                None => None,
            },
        );
        queue::show_files(&mut self.queue, &self.active_ids, snapshot.files());
    }

    /// Takes the results of the batch.
    pub fn finish_batch(&mut self, report: &BatchReport)
        ensures
            final(self)@ == old(self)@.finished(report@),
    {
        queue::conclude(
            &mut self.queue,
            &self.active_ids,
            report.results(),
            Interface::Desktop,
        );
        self.phase = AppPhaseDto::Idle;
        self.progress_milli = Some(1_000);
        self.eta_seconds = Some(0);
        self.active_ids = Vec::new();
        proof {
            assert(self.active_ids@ =~= Seq::<u64>::empty());
        }
        self.log(
            text::concat3(
                "batch finished with ",
                number::show_usize(report.failure_count()).as_str(),
                " failure(s)",
            ),
        );
    }

    /// Takes that the batch could not be worked on.
    pub fn fail_batch(&mut self, message: &str)
        ensures
            final(self)@ == old(self)@.failed(message@),
    {
        let ghost start = self.queue.deep_view();
        let ghost others = self@;
        let n: usize = self.queue.len();
        let mut i: usize = 0;
        while i < n
            invariant
                self@ == (SessionView { queue: self@.queue, ..others }),
                n == self.queue@.len(),
                n == start.len(),
                i <= n,
                forall|k: int|
                    0 <= k < i ==> (#[trigger] self.queue.deep_view()[k]) == batch_failed(
                        start,
                        message@,
                    )[k],
                forall|k: int| i <= k < n ==> (#[trigger] self.queue.deep_view()[k]) == start[k],
            decreases n - i,
        {
            proof {
                assert(self.queue.deep_view()[i as int] == self.queue@[i as int]@);
            }
            let busy = match self.queue[i].status {
                QueueStatus::Queued => true,
                QueueStatus::Preparing => true,
                QueueStatus::Running => true,
                _ => false,
            };
            if busy {
                queue::set_unprobed(&mut self.queue, i, message.to_owned());
            }
            i = i + 1;
        }
        proof {
            assert(self.queue.deep_view() =~= batch_failed(start, message@));
        }
        self.phase = AppPhaseDto::Idle;
        self.log(message.to_owned());
    }
}

/// What is said where a batch could not be worked on.
pub fn scheduler_failure(error: &SchedulerError) -> (r: String)
    ensures
        r@ == "Scheduler failed: "@ + error@.message() + ". Retry the affected files."@,
{
    text::concat3(
        "Scheduler failed: ",
        error.message().as_str(),
        ". Retry the affected files.",
    )
}

/// What is said where a file could not be inspected because its task stopped.
pub fn probe_stopped(error: &str) -> (r: String)
    ensures
        r@ == "A probe task stopped unexpectedly: "@ + error@ + ". Retry the item."@,
{
    text::concat3("A probe task stopped unexpectedly: ", error, ". Retry the item.")
}

/// As long as something is going on, nothing but its own end changes the queue: what the user asks
/// for is refused, and the session stays as it is.
pub proof fn law_busy_sessions_refuse(s: SessionView, id: u64, input: SettingsView, directory: Seq<u8>)
    requires
        !s.is_idle(),
    ensures
        s.enabling_fault(id) == Some(SessionView::busy_message()),
        s.update_fault(input) == Some(SessionView::busy_message()),
        s.directory_fault(directory, true) == Some(SessionView::busy_message()),
        s.batch_built(true) == (
            s,
            Err::<BatchRequestView, Seq<char>>(SessionView::busy_message()),
        ),
{
}

/// Settings that can be used can be planned with, and a batch with them is not refused for them.
pub proof fn law_accepted_settings_give_a_batch(s: SessionView)
    requires
        s.can_start(),
        settings_fault(s.settings, s.profiles) is None,
    ensures
        s.batch_built(true).1 is Ok,
        s.batch_built(true).0.phase == AppPhaseDto::Running,
{
}

/// Nothing is left of a batch that is over: something else can be done, and no file waits in it,
/// whatever went wrong.
pub proof fn law_failed_batches_are_over(s: SessionView, message: Seq<char>, i: int)
    requires
        0 <= i < s.queue.len(),
    ensures
        s.failed(message).is_idle(),
        !s.failed(message).queue[i].status.in_batch(),
{
}

/// Files that are taken out are gone, and the others stay.
pub proof fn law_removed_files_are_gone(queue: Seq<ItemView>, ids: Seq<u64>, item: ItemView)
    ensures
        without(queue, ids).contains(item) <==> queue.contains(item) && !ids.contains(item.id),
    decreases queue.len(),
{
    if queue.len() > 0 {
        let rest = queue.drop_last();
        law_removed_files_are_gone(rest, ids, item);
        let after = without(queue, ids);
        let before = without(rest, ids);
        assert(queue =~= rest.push(queue.last()));
        if queue.contains(item) {
            let k = choose|k: int| 0 <= k < queue.len() && queue[k] == item;
            if k < rest.len() {
                assert(rest[k] == item);
            }
        }
        if rest.contains(item) {
            let k = choose|k: int| 0 <= k < rest.len() && rest[k] == item;
            assert(queue[k] == item);
        }
        assert(queue[queue.len() - 1] == queue.last());
        if before.contains(item) {
            let k = choose|k: int| 0 <= k < before.len() && before[k] == item;
            assert(after[k] == item);
        }
        if after.contains(item) {
            let k = choose|k: int| 0 <= k < after.len() && after[k] == item;
            if k < before.len() {
                assert(before[k] == item);
            }
        }
        if !ids.contains(queue.last().id) {
            assert(after[after.len() - 1] == queue.last());
        }
    }
}

} // verus!
