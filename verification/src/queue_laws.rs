//! What holds of the files of a queue.
use vstd::prelude::*;

use crate::path;
use crate::plan::OutputMode;
use crate::policy::PolicyView;
use crate::queue;
use crate::queue::{Interface, ItemView, QueueStatus};
use crate::runtime::batch::{FileResultView, FileStateView};
use crate::runtime::prepare::{ActionRequestView, FileOutcomeView, SelectionRequestView};
use crate::session;
use crate::session::{PlanSettingsView, PlanTroubleView};
use crate::target::TargetView;

verus! {

/// Every input that is added is in the queue afterwards. The files that were there stay first and as
/// they were; a new one is enabled, waits for its inspection and goes where outputs go.
pub proof fn law_added_files_are_queued(
    before: Seq<ItemView>,
    next_id: u64,
    inputs: Seq<Seq<u8>>,
    directory: Option<Seq<u8>>,
    interface: Interface,
)
    ensures
        ({
            let after = queue::enqueued(before, next_id, inputs, directory, interface).queue;
            &&& before.len() <= after.len() <= before.len() + inputs.len()
            &&& after.take(before.len() as int) == before
            &&& forall|k: int|
                0 <= k < inputs.len() ==> queue::holds(
                    after,
                    after.len() as int,
                    #[trigger] inputs[k],
                )
            &&& forall|i: int| before.len() <= i < after.len() ==> is_new(#[trigger] after[i], directory)
                && inputs.contains(after[i].input)
        }),
    decreases inputs.len(),
{
    let after = queue::enqueued(before, next_id, inputs, directory, interface).queue;
    if inputs.len() == 0 {
        assert(after.take(before.len() as int) =~= before);
    } else {
        let rest = inputs.drop_last();
        let last = inputs.len() - 1;
        law_added_files_are_queued(before, next_id, rest, directory, interface);
        let earlier = queue::enqueued(before, next_id, rest, directory, interface).queue;
        assert(inputs[last] == inputs.last());
        assert(after.take(before.len() as int) =~= earlier.take(before.len() as int));
        assert forall|k: int| 0 <= k < inputs.len() implies queue::holds(
            after,
            after.len() as int,
            #[trigger] inputs[k],
        ) by {
            if k < last {
                assert(rest[k] == inputs[k]);
                assert(queue::holds(earlier, earlier.len() as int, rest[k]));
                let i = choose|i: int|
                    0 <= i < earlier.len() && path::same_path(
                        #[trigger] earlier[i].input,
                        rest[k],
                    );
                assert(path::same_path(after[i].input, inputs[k]));
            } else if after.len() > earlier.len() {
                assert(path::same_path(after[after.len() - 1].input, inputs[k]));
            } else {
                let known = match interface {
                    Interface::Terminal => earlier.len() as int,
                    Interface::Desktop => before.len() as int,
                };
                assert(queue::holds(earlier, known, inputs[k]));
                let i = choose|i: int|
                    0 <= i < known && path::same_path(#[trigger] earlier[i].input, inputs[k]);
                assert(path::same_path(after[i].input, inputs[k]));
            }
        }
        assert forall|i: int| before.len() <= i < after.len() implies is_new(
            #[trigger] after[i],
            directory,
        ) && inputs.contains(after[i].input) by {
            if i < earlier.len() {
                assert(after[i] == earlier[i]);
                assert(rest.contains(earlier[i].input));
                let k = choose|k: int| 0 <= k < rest.len() && rest[k] == earlier[i].input;
                assert(inputs[k] == after[i].input);
            } else {
                assert(after[i].input == inputs[last]);
            }
        }
    }
}

/// Whether nothing is known yet of a file of the queue.
pub open spec fn is_new(item: ItemView, directory: Option<Seq<u8>>) -> bool {
    &&& item.enabled
    &&& item.status == QueueStatus::Probing
    &&& item.output == session::output_for(item.input, directory)
    &&& item.media is None && item.plan is None && item.error is None
    &&& item.progress_milli is None && item.eta_us is None
}

/// A file of which it is known what is in it is ready where there is work, compatible where there is
/// none, and failed, with the reason, where there is no plan. Nothing else of it changes.
pub proof fn law_plans_set_the_status(
    item: ItemView,
    settings: PlanSettingsView,
    interface: Interface,
)
    ensures
        ({
            let next = queue::replanned_item(item, settings, interface);
            let planned = session::planned(item.media->0, settings, item.output);
            &&& item.media is None ==> next == item
            &&& item.media is Some && planned is Ok && planned->Ok_0 is Execute ==> next.status
                == QueueStatus::Ready && next.plan == Some(planned->Ok_0) && next.error is None
            &&& item.media is Some && planned is Ok && planned->Ok_0 is Skip ==> next.status
                == QueueStatus::Compatible && next.plan == Some(planned->Ok_0) && next.error is None
            &&& item.media is Some && planned is Err ==> next.status == QueueStatus::Failed
                && next.error is Some
            &&& item.media is Some && interface == Interface::Terminal && (planned matches Err(
                PlanTroubleView::Plan(message),
            )) ==> next.error == Some(planned->Err_0->Plan_0) && next.plan is None
            &&& next.id == item.id && next.input == item.input && next.output == item.output
                && next.enabled == item.enabled && next.media == item.media
        }),
{
}

/// New settings give every file whose content is known its output anew and a plan for it; in the
/// terminal other files stay as they are.
pub proof fn law_settings_are_applied(
    files: Seq<ItemView>,
    settings: PlanSettingsView,
    interface: Interface,
    i: int,
)
    requires
        0 <= i < files.len(),
    ensures
        ({
            let next = queue::rebuilt(files, settings, interface)[i];
            let output = session::output_for(files[i].input, settings.output_directory);
            &&& queue::rebuilt(files, settings, interface).len() == files.len()
            &&& files[i].media is Some || interface == Interface::Desktop ==> next
                == queue::replanned_item(ItemView { output, ..files[i] }, settings, interface)
            &&& files[i].media is Some || interface == Interface::Desktop ==> next.output == output
            &&& files[i].media is None && interface == Interface::Terminal ==> next == files[i]
        }),
{
}

/// A batch can begin exactly where some file is enabled and every enabled one was inspected and is
/// neither being worked on nor failed nor cancelled.
pub proof fn law_when_a_batch_can_begin(files: Seq<ItemView>)
    ensures
        queue::startable(files) <==> {
            &&& exists|i: int| 0 <= i < files.len() && (#[trigger] files[i]).enabled
            &&& forall|i: int|
                0 <= i < files.len() && (#[trigger] files[i]).enabled ==> {
                    let s = files[i].status;
                    s is Ready || s is Compatible || s is Succeeded || s is Skipped || s is Planned
                }
        },
{
}

/// A batch that begins has every enabled file waiting, without progress or error; the others stay.
pub proof fn law_started_files_wait(files: Seq<ItemView>, interface: Interface, i: int)
    requires
        0 <= i < files.len(),
    ensures
        ({
            let next = queue::started(files, interface)[i];
            &&& queue::started(files, interface).len() == files.len()
            &&& files[i].enabled ==> next.status == QueueStatus::Queued && next.progress_milli
                is None && next.error is None
            &&& files[i].enabled && interface == Interface::Desktop ==> next.eta_us is None
            &&& !files[i].enabled ==> next == files[i]
            &&& next.id == files[i].id && next.input == files[i].input && next.output
                == files[i].output && next.plan == files[i].plan && next.media == files[i].media
        }),
{
}

/// How many of the first `n` files are enabled.
pub open spec fn enabled_before(files: Seq<ItemView>, n: int) -> nat {
    files.take(n).filter(|item: ItemView| item.enabled).len()
}

proof fn lemma_enabled(
    files: Seq<ItemView>,
    policy: PolicyView,
    target: TargetView,
    mode: OutputMode,
    remux: bool,
    i: int,
)
    requires
        0 <= i < files.len(),
        files[i].enabled,
    ensures
        ({
            let k = enabled_before(files, i) as int;
            let ids = queue::enabled_ids(files);
            let requests = queue::requests_for(files, policy, target, mode, remux);
            &&& k < ids.len()
            &&& k < requests.len()
            &&& ids[k] == files[i].id
            &&& requests[k] == queue::request_for(files[i], policy, target, mode, remux)
        }),
    decreases files.len(),
{
    reveal(Seq::filter);
    let rest = files.drop_last();
    if i < rest.len() {
        assert(rest[i] == files[i]);
        assert(rest.take(i) =~= files.take(i));
        lemma_enabled(rest, policy, target, mode, remux, i);
    } else {
        assert(files.take(i) =~= rest);
        lemma_enabled_count(rest, policy, target, mode, remux);
    }
}

proof fn lemma_enabled_count(
    files: Seq<ItemView>,
    policy: PolicyView,
    target: TargetView,
    mode: OutputMode,
    remux: bool,
)
    ensures
        ({
            let n = files.filter(|item: ItemView| item.enabled).len();
            &&& queue::enabled_ids(files).len() == n
            &&& queue::requests_for(files, policy, target, mode, remux).len() == n
        }),
    decreases files.len(),
{
    reveal(Seq::filter);
    if files.len() > 0 {
        lemma_enabled_count(files.drop_last(), policy, target, mode, remux);
    }
}

/// A batch is asked for the enabled files in their order, each with its input and output and the
/// settings of the session; a remux takes the first accepted audio.
pub proof fn law_batches_are_asked_for_enabled_files(
    files: Seq<ItemView>,
    policy: PolicyView,
    target: TargetView,
    mode: OutputMode,
    remux: bool,
    i: int,
)
    requires
        0 <= i < files.len(),
        files[i].enabled,
    ensures
        ({
            let k = enabled_before(files, i) as int;
            let requests = queue::requests_for(files, policy, target, mode, remux);
            &&& requests.len() == enabled_before(files, files.len() as int)
            &&& queue::enabled_ids(files).len() == requests.len()
            &&& queue::enabled_ids(files)[k] == files[i].id
            &&& requests[k].input == files[i].input
            &&& requests[k].output == files[i].output
            &&& requests[k].compatibility == policy
            &&& requests[k].target == target
            &&& requests[k].output_mode == mode
            &&& remux ==> requests[k].action == ActionRequestView::RemuxOnly(
                SelectionRequestView::FirstCompatible,
            )
            &&& !remux ==> requests[k].action == ActionRequestView::Convert
        }),
{
    lemma_enabled(files, policy, target, mode, remux, i);
    lemma_enabled_count(files, policy, target, mode, remux);
    assert(files.take(files.len() as int) =~= files);
}

/// A file of the queue is shown with the status, the progress and the remaining time of its batch.
pub proof fn law_batches_are_shown(item: ItemView, file: FileStateView)
    ensures
        ({
            let next = queue::shown_item(item, file);
            &&& file.status is Queued <==> next.status is Queued
            &&& file.status is Preparing <==> next.status is Preparing
            &&& file.status is Ready <==> next.status is Ready
            &&& file.status is Running <==> next.status is Running
            &&& file.status is Succeeded <==> next.status is Succeeded
            &&& file.status is Skipped <==> next.status is Skipped
            &&& file.status is Planned <==> next.status is Planned
            &&& file.status is Failed <==> next.status is Failed
            &&& file.status is Cancelled <==> next.status is Cancelled
            &&& next.progress_milli == session::progress_of(file.position_us, file.duration_us)
            &&& next.eta_us == file.eta_us
            &&& next.id == item.id && next.input == item.input && next.output == item.output
                && next.enabled == item.enabled && next.error == item.error
        }),
{
}

/// After a batch each of its files has the status of its outcome and is at its end; a failure is
/// shown with its stage and its message.
pub proof fn law_outcomes_are_shown(item: ItemView, outcome: FileOutcomeView, interface: Interface)
    ensures
        ({
            let next = queue::concluded_item(item, outcome, interface);
            &&& outcome is Succeeded <==> next.status is Succeeded
            &&& outcome is Skipped <==> next.status is Skipped
            &&& outcome is Planned <==> next.status is Planned
            &&& outcome is Failed <==> next.status is Failed
            &&& outcome is Cancelled <==> next.status is Cancelled
            &&& next.progress_milli == Some(1_000u16)
            &&& outcome matches FileOutcomeView::Failed(f) ==> next.error == Some(
                match interface {
                    Interface::Terminal => f.stage.label() + ": "@ + f.message,
                    Interface::Desktop => f.stage.label() + " failed: "@ + f.message
                        + ". Fix the cause and retry."@,
                },
            )
            &&& !(outcome is Failed) ==> next.error == item.error
            &&& next.id == item.id && next.input == item.input && next.output == item.output
                && next.enabled == item.enabled
        }),
{
}

/// The result of a batch changes the file that stands at its place of the batch, and no other.
pub proof fn law_results_go_to_their_files(
    files: Seq<ItemView>,
    active: Seq<u64>,
    results: Seq<FileResultView>,
    result: FileResultView,
    interface: Interface,
    i: int,
)
    requires
        0 <= i < files.len(),
    ensures
        ({
            let before = queue::concluded(files, active, results, interface);
            let after = queue::concluded(files, active, results.push(result), interface);
            let named = result.id < active.len() && before[i].id == active[result.id as int]
                && forall|k: int| 0 <= k < i ==> (#[trigger] before[k]).id
                != active[result.id as int];
            &&& before.len() == files.len()
            &&& after.len() == files.len()
            &&& named ==> after[i] == queue::concluded_item(before[i], result.outcome, interface)
            &&& !named ==> after[i] == before[i]
        }),
{
    lemma_concluded_length(files, active, results, interface);
    assert(results.push(result).drop_last() =~= results);
    let before = queue::concluded(files, active, results, interface);
    if result.id < active.len() {
        queue::lemma_index_of(before, active[result.id as int], 0);
    }
}

proof fn lemma_concluded_length(
    files: Seq<ItemView>,
    active: Seq<u64>,
    results: Seq<FileResultView>,
    interface: Interface,
)
    ensures
        queue::concluded(files, active, results, interface).len() == files.len(),
    decreases results.len(),
{
    if results.len() > 0 {
        let rest = results.drop_last();
        lemma_concluded_length(files, active, rest, interface);
        let before = queue::concluded(files, active, rest, interface);
        if results.last().id < active.len() {
            queue::lemma_index_of(before, active[results.last().id as int], 0);
        }
    }
}

/// Trying again takes the files that failed or were cancelled, all or those that were picked: they
/// are enabled, without error, ready where it is known what is in them and else to be inspected
/// again. No other file changes.
pub proof fn law_retried_files(files: Seq<ItemView>, picked: Option<Seq<u64>>, i: int)
    requires
        0 <= i < files.len(),
    ensures
        ({
            let next = queue::retried(files, picked)[i];
            let again = (files[i].status is Failed || files[i].status is Cancelled) && (picked is None
                || picked->0.contains(files[i].id));
            &&& queue::retried(files, picked).len() == files.len()
            &&& again ==> next.enabled && next.error is None && next.input == files[i].input
                && next.id == files[i].id && next.output == files[i].output
            &&& again && files[i].media is Some ==> next.status == QueueStatus::Ready
            &&& again && files[i].media is None ==> next.status == QueueStatus::Probing
                && queue::reprobed(files, picked).contains((files[i].id, files[i].input))
            &&& !again ==> next == files[i]
        }),
{
    if queue::is_retried(files[i], picked) && files[i].media is None {
        lemma_reprobed(files, picked, i);
    }
}

proof fn lemma_reprobed(files: Seq<ItemView>, picked: Option<Seq<u64>>, i: int)
    requires
        0 <= i < files.len(),
        queue::is_retried(files[i], picked),
        files[i].media is None,
    ensures
        queue::reprobed(files, picked).contains((files[i].id, files[i].input)),
    decreases files.len(),
{
    let rest = files.drop_last();
    let all = queue::reprobed(files, picked);
    if i < rest.len() {
        assert(rest[i] == files[i]);
        lemma_reprobed(rest, picked, i);
        let fewer = queue::reprobed(rest, picked);
        let k = choose|k: int|
            0 <= k < fewer.len() && fewer[k] == (files[i].id, files[i].input);
        assert(all[k] == fewer[k]);
    } else {
        assert(all[all.len() - 1] == (files[i].id, files[i].input));
    }
}

/// What the statuses of files are called.
pub proof fn law_status_names()
    ensures
        QueueStatus::Probing.name() == "probing"@,
        QueueStatus::Ready.name() == "ready"@,
        QueueStatus::Compatible.name() == "compatible"@,
        QueueStatus::Queued.name() == "queued"@,
        QueueStatus::Preparing.name() == "preparing"@,
        QueueStatus::Running.name() == "running"@,
        QueueStatus::Succeeded.name() == "succeeded"@,
        QueueStatus::Skipped.name() == "skipped"@,
        QueueStatus::Planned.name() == "planned"@,
        QueueStatus::Failed.name() == "failed"@,
        QueueStatus::Cancelled.name() == "cancelled"@,
{
}

} // verus!
