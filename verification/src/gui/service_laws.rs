//! What holds of a session on the desktop.
use vstd::prelude::*;

use crate::cli::dto as told;
use crate::ffmpeg::discovery::ResolvedView;
use crate::gui::dto;
use crate::gui::dto::{AppPhaseDto, SettingsView};
use crate::gui::service;
use crate::gui::service::{SessionView, ToolchainSearch};
use crate::media::MediaInfoView;
use crate::model;
use crate::plan::PlanOutcomeView;
use crate::queue;
use crate::queue::{Interface, ItemView, QueueStatus};
use crate::runtime::batch::{BatchReportView, SnapshotView};
use crate::runtime::config::EffectiveConfigView;
use crate::runtime::prepare::FailurePolicy;
use crate::session;
use crate::session::ProfileChoiceView;
use crate::stream::StreamInfoView;
use crate::text;

verus! {

/// Settings can be used exactly where every one of them can: the profile is one of those that there
/// are, there is work of either kind, from 1 to 64 at once, on one of three kinds of storage, with a
/// target, an output mode and one of two ways to deal with failures.
pub proof fn law_usable_session_settings(input: SettingsView, profiles: Seq<ProfileChoiceView>)
    ensures
        service::settings_fault(input, profiles) is None <==> {
            &&& session::choice_index(profiles, input.profile, 0) is Some
            &&& input.action == "convert"@ || input.action == "remux"@
            &&& 1 <= input.jobs <= 64
            &&& input.storage_profile == "hdd"@ || input.storage_profile == "balanced"@
                || input.storage_profile == "nvme"@
            &&& session::target_of(input.codec, input.bitrate, input.channels) is Ok
            &&& session::mode_of(input.mode) is Ok
            &&& input.failure_policy == "continue"@ || input.failure_policy == "fail-fast"@
        },
{
}

/// After a failure a batch goes on or stops, as it is told to.
pub proof fn law_failure_policies(value: Seq<char>)
    ensures
        value == "continue"@ ==> service::failure_policy_of(value) == Ok::<_, Seq<char>>(
            FailurePolicy::Continue,
        ),
        value == "fail-fast"@ ==> service::failure_policy_of(value) == Ok::<_, Seq<char>>(
            FailurePolicy::FailFast,
        ),
        value != "continue"@ && value != "fail-fast"@ ==> service::failure_policy_of(value) is Err,
{
    reveal_strlit("continue");
    reveal_strlit("fail-fast");
    assert("continue"@.len() != "fail-fast"@.len());
}

/// A batch is for the enabled files with the settings of the session; all of these then wait and
/// nothing of it is done.
pub proof fn law_batches_follow_the_settings(s: SessionView)
    requires
        s.batch_built(true).1 is Ok,
    ensures
        ({
            let after = s.batch_built(true).0;
            let batch = s.batch_built(true).1->Ok_0;
            let target = session::target_of(
                s.settings.codec,
                s.settings.bitrate,
                s.settings.channels,
            );
            let mode = session::mode_of(s.settings.mode);
            &&& target is Ok
            &&& mode is Ok
            &&& s.settings.action == "remux"@ ==> batch.files == queue::requests_for(
                s.queue,
                s.policy(),
                target->Ok_0,
                mode->Ok_0,
                true,
            )
            &&& s.settings.action != "remux"@ ==> batch.files == queue::requests_for(
                s.queue,
                s.policy(),
                target->Ok_0,
                mode->Ok_0,
                false,
            )
            &&& batch.options.max_concurrency == s.settings.jobs
            &&& batch.options.dry_run == s.settings.dry_run
            &&& s.settings.failure_policy == "continue"@ ==> batch.options.failure_policy
                == FailurePolicy::Continue
            &&& s.settings.failure_policy == "fail-fast"@ ==> batch.options.failure_policy
                == FailurePolicy::FailFast
            &&& after.phase == AppPhaseDto::Running
            &&& after.progress_milli == Some(0u16)
            &&& after.eta_seconds is None
            &&& after.active_ids == queue::enabled_ids(s.queue)
            &&& after.queue == queue::started(s.queue, Interface::Desktop)
            &&& after.settings == s.settings && after.profiles == s.profiles
        }),
{
    law_failure_policies(s.settings.failure_policy);
}

/// A batch is refused without tools, as long as something is going on, and where the files cannot
/// begin; the session then stays as it is.
pub proof fn law_refused_batches_change_nothing(s: SessionView, tools: bool)
    requires
        !tools || s.phase != AppPhaseDto::Idle || !queue::startable(s.queue),
    ensures
        s.batch_built(tools).0 == s,
        s.batch_built(tools).1 is Err,
        !tools ==> s.batch_built(tools).1->Err_0 == "FFmpeg setup is required before starting"@,
{
}

/// The profile that is chosen decides which audio is accepted.
pub proof fn law_chosen_profiles_decide(s: SessionView, i: int)
    requires
        session::choice_index(s.profiles, s.settings.profile, 0) == Some(i),
    ensures
        s.policy() == s.profiles[i].policy,
        s.planning().policy == s.profiles[i].policy,
        s.planning().target == session::target_of(
            s.settings.codec,
            s.settings.bitrate,
            s.settings.channels,
        ),
        s.planning().mode == session::mode_of(s.settings.mode),
        s.planning().remux == (s.settings.action == "remux"@),
        s.planning().output_directory == s.output_directory,
{
}

/// A session begins with the settings that are in force, with nothing in its queue, and idle where
/// there are tools.
pub proof fn law_sessions_begin(
    config: EffectiveConfigView,
    error: Option<Seq<char>>,
    found: Result<ResolvedView, Seq<char>>,
)
    ensures
        ({
            let s = SessionView::begun(config, error, found);
            &&& found is Ok <==> s.phase == AppPhaseDto::Idle
            &&& found is Err <==> s.phase == AppPhaseDto::ToolchainSetup
            &&& s.toolchain.available == found is Ok
            &&& s.queue.len() == 0 && s.active_ids.len() == 0 && s.next_id == 0
            &&& s.progress_milli is None && s.eta_seconds is None
            &&& s.settings.profile == config.profile.value
            &&& s.settings.action == "convert"@
            &&& s.settings.codec == config.codec.value
            &&& s.settings.bitrate == config.bitrate.value
            &&& s.settings.channels == config.channels.value
            &&& s.settings.mode == config.mode.value
            &&& s.settings.jobs == config.jobs.value
            &&& s.settings.storage_profile == config.storage_profile.value
            &&& s.settings.failure_policy == "continue"@
            &&& !s.settings.dry_run
            &&& config.output_directory is None ==> s.output_directory is None
            &&& config.output_directory is Some ==> s.output_directory == Some(
                config.output_directory->0.value,
            )
        }),
{
}

/// What came of an inspection belongs to its file alone: what is in it and a plan for it, or why it
/// could not be inspected.
pub proof fn law_inspections_belong_to_their_files(
    s: SessionView,
    id: u64,
    result: Result<MediaInfoView, Seq<char>>,
    i: int,
)
    requires
        0 <= i < s.queue.len(),
    ensures
        ({
            let after = s.probed(id, result);
            let found = queue::index_of(s.queue, id, 0) == Some(i);
            &&& after.queue.len() == s.queue.len()
            &&& !found ==> after.queue[i] == s.queue[i]
            &&& found && result is Ok ==> after.queue[i].media == Some(result->Ok_0)
            &&& found && result is Ok ==> after.queue[i] == queue::replanned_item(
                ItemView { media: Some(result->Ok_0), ..s.queue[i] },
                s.planning(),
                Interface::Desktop,
            )
            &&& found && result is Err ==> after.queue[i].status == QueueStatus::Failed
                && after.queue[i].error == Some(
                result->Err_0 + ". Verify the MKV and retry."@,
            )
            &&& after.phase == s.phase && after.settings == s.settings
        }),
{
    queue::lemma_index_of(s.queue, id, 0);
}

/// A batch that is over leaves the session idle, with every result at its file and all of it done.
pub proof fn law_finished_batches_are_concluded(s: SessionView, report: BatchReportView)
    ensures
        ({
            let after = s.finished(report);
            &&& after.phase == AppPhaseDto::Idle
            &&& after.active_ids.len() == 0
            &&& after.progress_milli == Some(1_000u16)
            &&& after.eta_seconds == Some(0u64)
            &&& after.queue == queue::concluded(
                s.queue,
                s.active_ids,
                report.results,
                Interface::Desktop,
            )
        }),
{
}

/// A running batch is shown with its progress and the whole seconds that are left.
pub proof fn law_running_batches_are_shown(s: SessionView, snapshot: SnapshotView)
    ensures
        ({
            let after = s.shown(snapshot);
            &&& after.progress_milli == snapshot.progress_milli
            &&& snapshot.eta_us is None <==> after.eta_seconds is None
            &&& snapshot.eta_us matches Some(us) ==> after.eta_seconds->0 * 1_000_000 <= us < (
            after.eta_seconds->0 + 1) * 1_000_000
            &&& after.queue == queue::shown(s.queue, s.active_ids, snapshot.files)
            &&& after.phase == s.phase
        }),
{
}

/// Tools that were found end the setup and change no other phase.
pub proof fn law_found_tools_end_the_setup(
    s: SessionView,
    resolved: ResolvedView,
    search: ToolchainSearch,
)
    ensures
        ({
            let after = s.with_tools(resolved, search);
            &&& after.toolchain.available
            &&& after.toolchain.source == resolved.source.label()
            &&& after.toolchain.detail == "FFmpeg: "@ + text::lossy(resolved.paths.ffmpeg)
            &&& s.phase == AppPhaseDto::ToolchainSetup ==> after.phase == AppPhaseDto::Idle
            &&& s.phase != AppPhaseDto::ToolchainSetup ==> after.phase == s.phase
            &&& after.queue == s.queue && after.settings == s.settings
        }),
{
}

/// Without tools no file goes on waiting for its inspection: all of these fail, with what to do.
pub proof fn law_missing_tools_fail_inspections(s: SessionView, i: int)
    requires
        0 <= i < s.queue.len(),
    ensures
        ({
            let after = s.without_tools();
            &&& after.phase == AppPhaseDto::ToolchainSetup
            &&& after.queue.len() == s.queue.len()
            &&& s.queue[i].status == QueueStatus::Probing ==> after.queue[i].status
                == QueueStatus::Failed && after.queue[i].error == Some(
                "FFmpeg is unavailable. Choose an installation, then retry these files."@,
            )
            &&& s.queue[i].status != QueueStatus::Probing ==> after.queue[i] == s.queue[i]
        }),
{
}

/// Settings that are accepted replace all settings but the directory of outputs, and every plan is
/// made anew with them.
pub proof fn law_accepted_settings_are_in_force(s: SessionView, input: SettingsView)
    ensures
        ({
            let after = s.with_settings(input);
            &&& after.settings.output_directory == s.settings.output_directory
            &&& after.output_directory == s.output_directory
            &&& after.settings.profile == input.profile && after.settings.action == input.action
            &&& after.settings.codec == input.codec && after.settings.bitrate == input.bitrate
            &&& after.settings.channels == input.channels && after.settings.mode == input.mode
            &&& after.settings.jobs == input.jobs
            &&& after.settings.storage_profile == input.storage_profile
            &&& after.settings.failure_policy == input.failure_policy
            &&& after.settings.dry_run == input.dry_run
            &&& after.queue == queue::rebuilt(s.queue, after.planning(), Interface::Desktop)
            &&& after.phase == s.phase
        }),
{
}

/// A directory of outputs that is accepted is in force for every file.
pub proof fn law_chosen_directories_are_in_force(s: SessionView, directory: Seq<u8>, i: int)
    requires
        0 <= i < s.queue.len(),
    ensures
        ({
            let after = s.with_directory(directory);
            &&& after.output_directory == Some(directory)
            &&& after.settings.output_directory == Some(text::lossy(directory))
            &&& after.queue.len() == s.queue.len()
            &&& after.queue[i].output == session::output_for(s.queue[i].input, Some(directory))
            &&& s.directory_fault(directory, false) is Some
            &&& s.is_idle() ==> s.directory_fault(directory, true) is None
        }),
{
}

/// Enabling a file changes that file alone.
pub proof fn law_files_are_enabled_one_by_one(s: SessionView, id: u64, enabled: bool, i: int)
    requires
        0 <= i < s.queue.len(),
        s.enabling_fault(id) is None,
    ensures
        ({
            let after = s.enabling(id, enabled);
            let named = queue::index_of(s.queue, id, 0) == Some(i);
            &&& after.queue.len() == s.queue.len()
            &&& named ==> after.queue[i] == (ItemView { enabled, ..s.queue[i] })
            &&& !named ==> after.queue[i] == s.queue[i]
        }),
{
    queue::lemma_index_of(s.queue, id, 0);
}

/// Files that are removed are counted once, however often they are named.
pub proof fn law_removed_files_are_counted_once(ids: Seq<u64>, id: u64)
    ensures
        service::distinct(Seq::empty()) == 0,
        ids.contains(id) ==> service::distinct(ids.push(id)) == service::distinct(ids),
        !ids.contains(id) ==> service::distinct(ids.push(id)) == service::distinct(ids) + 1,
{
    assert(ids.push(id).drop_last() =~= ids);
}

/// What is told of a session is what it holds, file by file.
pub proof fn law_snapshots_tell_the_session(s: SessionView, i: int)
    ensures
        ({
            let shown = s.snapshot();
            &&& shown.phase == s.phase
            &&& shown.settings == s.settings
            &&& shown.can_start <==> s.phase == AppPhaseDto::Idle && queue::startable(s.queue)
            &&& shown.progress_milli == s.progress_milli
            &&& shown.eta_seconds == s.eta_seconds
            &&& shown.logs == s.logs
            &&& shown.queue.len() == s.queue.len()
            &&& shown.profiles.len() == s.profiles.len()
            &&& 0 <= i < s.profiles.len() ==> shown.profiles[i] == s.profiles[i].name
            &&& 0 <= i < s.queue.len() ==> {
                let item = s.queue[i];
                &&& shown.queue[i].id == item.id
                &&& shown.queue[i].name == session::shown_name(item.input)
                &&& shown.queue[i].input_display == text::lossy(item.input)
                &&& shown.queue[i].output_display == text::lossy(item.output)
                &&& shown.queue[i].enabled == item.enabled
                &&& shown.queue[i].status == item.status.name()
                &&& shown.queue[i].progress_milli == item.progress_milli
                &&& shown.queue[i].error == item.error
                &&& shown.queue[i].plan == session::summary_text(item.plan)
                &&& item.media is None ==> shown.queue[i].tracks.len() == 0
                &&& item.media matches Some(media) ==> shown.queue[i].tracks.len()
                    == media.streams.len()
            }
        }),
{
}

/// What is told of a track: its facts and what becomes of it.
pub proof fn law_tracks_are_told(stream: StreamInfoView, plan: Option<PlanOutcomeView>)
    ensures
        ({
            let track = dto::track_told(stream, plan);
            let common = stream.common();
            &&& track.index == common.index
            &&& track.kind == told::kind_of(stream)
            &&& track.language == model::lookup(common.metadata, "language"@)
            &&& track.title == model::lookup(common.metadata, "title"@)
            &&& track.default == common.is_default()
            &&& track.action == session::action_text(plan, common.index)
            &&& stream matches StreamInfoView::Audio(audio) ==> track.channels == Some(
                audio.channels.count,
            ) && track.codec == audio.codec.name()
            &&& !(stream is Audio) ==> track.channels is None && track.codec == common.codec_name
        }),
{
}

/// The choices of the menu that are passed on.
pub proof fn law_menu_choices(action: Seq<char>)
    ensures
        dto::is_passed_on(action) <==> seq![
            "add-files"@,
            "add-directory"@,
            "start-batch"@,
            "cancel-batch"@,
            "remove-selected"@,
        ].contains(action),
{
    let all = seq![
        "add-files"@,
        "add-directory"@,
        "start-batch"@,
        "cancel-batch"@,
        "remove-selected"@,
    ];
    assert(all[0] == "add-files"@ && all[1] == "add-directory"@ && all[2] == "start-batch"@ && all[3]
        == "cancel-batch"@ && all[4] == "remove-selected"@);
}

/// A discovery and a cancellation are phases of their own; after the inspections the session is idle
/// where there are tools.
pub proof fn law_phases(s: SessionView, roots: nat, error: Option<Seq<char>>)
    ensures
        s.discovering(roots).phase == AppPhaseDto::Probing,
        s.cancelling().phase == AppPhaseDto::Cancelling,
        s.probes_over(true, error).phase == AppPhaseDto::Idle,
        s.probes_over(false, error).phase == AppPhaseDto::ToolchainSetup,
        s.is_active() <==> s.phase == AppPhaseDto::Running || s.phase == AppPhaseDto::Cancelling,
        s.is_idle() <==> s.phase == AppPhaseDto::Idle || s.phase == AppPhaseDto::ToolchainSetup,
        s.discovering(roots).queue == s.queue,
        s.cancelling().queue == s.queue,
        s.probes_over(true, error).queue == s.queue,
{
}

/// Trying again inspects files anew where it is not known what is in them.
pub proof fn law_desktop_retries(s: SessionView, ids: Seq<u64>)
    ensures
        ({
            let after = s.retried(ids);
            let unknown = queue::reprobed(s.queue, Some(ids)).len() > 0;
            &&& unknown ==> after.phase == AppPhaseDto::Probing
            &&& !unknown ==> after.phase == s.phase
            &&& after.queue == queue::rebuilt(
                queue::retried(s.queue, Some(ids)),
                s.planning(),
                Interface::Desktop,
            )
        }),
{
}

} // verus!
