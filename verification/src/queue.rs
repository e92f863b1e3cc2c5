//! The queue of an interface: files that are added, planned, given to a batch and tried again.
use vstd::prelude::*;

use crate::media::{MediaInfo, MediaInfoView};
use crate::path;
use crate::path::FilePath;
use crate::plan::{OutputMode, PlanOutcome, PlanOutcomeView};
use crate::policy::{CompatibilityPolicy, PolicyView};
use crate::runtime::batch;
use crate::runtime::batch::{
    status_for_outcome, FileProgressState, FileResult, FileResultView, FileStateView, FileStatus,
};
use crate::runtime::prepare::{
    ActionRequest, ActionRequestView, AudioSelectionRequest, FileFailure, FileFailureView,
    FileOutcome, FileOutcomeView, FileRequest, FileRequestView, SelectionRequestView,
};
use crate::session;
use crate::session::{PlanSettings, PlanSettingsView, PlanTrouble, PlanTroubleView};
use crate::target::{AudioTarget, TargetView};
use crate::text;

verus! {

/// How far a file of the queue is.
#[derive(Debug, Clone, Copy, PartialEq, Eq, Structural)]
pub enum QueueStatus {
    /// It is being inspected.
    Probing,
    /// It can be converted.
    Ready,
    /// Nothing has to be done with it.
    Compatible,
    /// It waits.
    Queued,
    /// It is being prepared.
    Preparing,
    /// It is being converted.
    Running,
    /// Its output was published.
    Succeeded,
    /// Nothing was done with it.
    Skipped,
    /// Something would be done with it.
    Planned,
    /// The work on it failed.
    Failed,
    /// The work on it was cancelled.
    Cancelled,
}

impl DeepView for QueueStatus {
    type V = QueueStatus;

    open spec fn deep_view(&self) -> QueueStatus {
        *self
    }
}

impl QueueStatus {
    /// The mark in the terminal.
    pub open spec fn mark(self) -> Seq<char> {
        match self {
            QueueStatus::Probing => "[PROBE]"@,
            QueueStatus::Ready => "[READY]"@,
            QueueStatus::Compatible => "[SKIP]"@,
            QueueStatus::Queued => "[WAIT]"@,
            QueueStatus::Preparing => "[PREP]"@,
            QueueStatus::Running => "[RUN]"@,
            QueueStatus::Succeeded => "[OK]"@,
            QueueStatus::Skipped => "[SKIP]"@,
            QueueStatus::Planned => "[PLAN]"@,
            QueueStatus::Failed => "[ERR]"@,
            QueueStatus::Cancelled => "[CXL]"@,
        }
    }

    /// The mark in the terminal.
    pub fn label(self) -> (r: &'static str)
        ensures
            r@ == self.mark(),
    {
        match self {
            QueueStatus::Probing => "[PROBE]",
            QueueStatus::Ready => "[READY]",
            QueueStatus::Compatible => "[SKIP]",
            QueueStatus::Queued => "[WAIT]",
            QueueStatus::Preparing => "[PREP]",
            QueueStatus::Running => "[RUN]",
            QueueStatus::Succeeded => "[OK]",
            QueueStatus::Skipped => "[SKIP]",
            QueueStatus::Planned => "[PLAN]",
            QueueStatus::Failed => "[ERR]",
            QueueStatus::Cancelled => "[CXL]",
        }
    }

    /// The name on the desktop.
    pub open spec fn name(self) -> Seq<char> {
        match self {
            QueueStatus::Probing => "probing"@,
            QueueStatus::Ready => "ready"@,
            QueueStatus::Compatible => "compatible"@,
            QueueStatus::Queued => "queued"@,
            QueueStatus::Preparing => "preparing"@,
            QueueStatus::Running => "running"@,
            QueueStatus::Succeeded => "succeeded"@,
            QueueStatus::Skipped => "skipped"@,
            QueueStatus::Planned => "planned"@,
            QueueStatus::Failed => "failed"@,
            QueueStatus::Cancelled => "cancelled"@,
        }
    }

    /// The name on the desktop.
    pub fn as_str(self) -> (r: &'static str)
        ensures
            r@ == self.name(),
    {
        match self {
            QueueStatus::Probing => "probing",
            QueueStatus::Ready => "ready",
            QueueStatus::Compatible => "compatible",
            QueueStatus::Queued => "queued",
            QueueStatus::Preparing => "preparing",
            QueueStatus::Running => "running",
            QueueStatus::Succeeded => "succeeded",
            QueueStatus::Skipped => "skipped",
            QueueStatus::Planned => "planned",
            QueueStatus::Failed => "failed",
            QueueStatus::Cancelled => "cancelled",
        }
    }

    /// Whether a file can be given to a batch.
    pub open spec fn startable(self) -> bool {
        match self {
            QueueStatus::Ready => true,
            QueueStatus::Compatible => true,
            QueueStatus::Succeeded => true,
            QueueStatus::Skipped => true,
            QueueStatus::Planned => true,
            _ => false,
        }
    }

    /// Whether a file can be given to a batch.
    pub fn can_start(self) -> (r: bool)
        ensures
            r == self.startable(),
    {
        match self {
            QueueStatus::Ready => true,
            QueueStatus::Compatible => true,
            QueueStatus::Succeeded => true,
            QueueStatus::Skipped => true,
            QueueStatus::Planned => true,
            _ => false,
        }
    }

    /// Whether a file can be tried again.
    pub open spec fn retryable(self) -> bool {
        self == QueueStatus::Failed || self == QueueStatus::Cancelled
    }

    /// Whether a file is in a batch.
    pub open spec fn in_batch(self) -> bool {
        self == QueueStatus::Queued || self == QueueStatus::Preparing || self
            == QueueStatus::Running
    }
}

/// How far a file of the queue is, given how far it is in its batch.
pub open spec fn status_in_queue(status: FileStatus) -> QueueStatus {
    match status {
        FileStatus::Queued => QueueStatus::Queued,
        FileStatus::Preparing => QueueStatus::Preparing,
        FileStatus::Ready => QueueStatus::Ready,
        FileStatus::Running => QueueStatus::Running,
        FileStatus::Succeeded => QueueStatus::Succeeded,
        FileStatus::Skipped => QueueStatus::Skipped,
        FileStatus::Planned => QueueStatus::Planned,
        FileStatus::Failed => QueueStatus::Failed,
        FileStatus::Cancelled => QueueStatus::Cancelled,
    }
}

/// How far a file of the queue is, given how far it is in its batch.
pub fn queue_status(status: FileStatus) -> (r: QueueStatus)
    ensures
        r == status_in_queue(status),
{
    match status {
        FileStatus::Queued => QueueStatus::Queued,
        FileStatus::Preparing => QueueStatus::Preparing,
        FileStatus::Ready => QueueStatus::Ready,
        FileStatus::Running => QueueStatus::Running,
        FileStatus::Succeeded => QueueStatus::Succeeded,
        FileStatus::Skipped => QueueStatus::Skipped,
        FileStatus::Planned => QueueStatus::Planned,
        FileStatus::Failed => QueueStatus::Failed,
        FileStatus::Cancelled => QueueStatus::Cancelled,
    }
}

/// Where the queue is shown.
#[derive(Debug, Clone, Copy, PartialEq, Eq, Structural)]
pub enum Interface {
    /// In a terminal.
    Terminal,
    /// On the desktop.
    Desktop,
}

impl DeepView for Interface {
    type V = Interface;

    open spec fn deep_view(&self) -> Interface {
        *self
    }
}

/// A file of the queue.
#[derive(Debug)]
pub struct QueueItem {
    /// Its number.
    pub id: u64,
    /// Where it is.
    pub input: FilePath,
    /// Where its output goes.
    pub output: FilePath,
    /// Whether it takes part in the next batch.
    pub enabled: bool,
    /// How far it is.
    pub status: QueueStatus,
    /// How far its conversion is in thousandths.
    pub progress_milli: Option<u16>,
    /// The time it still needs in microseconds.
    pub eta_us: Option<u64>,
    /// What is in it.
    pub media: Option<MediaInfo>,
    /// What is to be done with it.
    pub plan: Option<PlanOutcome>,
    /// What is wrong with it.
    pub error: Option<String>,
}

/// A file of the queue.
pub struct ItemView {
    /// Its number.
    pub id: u64,
    /// Where it is.
    pub input: Seq<u8>,
    /// Where its output goes.
    pub output: Seq<u8>,
    /// Whether it takes part in the next batch.
    pub enabled: bool,
    /// How far it is.
    pub status: QueueStatus,
    /// How far its conversion is in thousandths.
    pub progress_milli: Option<u16>,
    /// The time it still needs in microseconds.
    pub eta_us: Option<u64>,
    /// What is in it.
    pub media: Option<MediaInfoView>,
    /// What is to be done with it.
    pub plan: Option<PlanOutcomeView>,
    /// What is wrong with it.
    pub error: Option<Seq<char>>,
}

impl View for QueueItem {
    type V = ItemView;

    open spec fn view(&self) -> ItemView {
        ItemView {
            id: self.id,
            input: self.input@,
            output: self.output@,
            enabled: self.enabled,
            status: self.status,
            progress_milli: self.progress_milli,
            eta_us: self.eta_us,
            media: self.media.deep_view(),
            plan: self.plan.deep_view(),
            error: self.error.deep_view(),
        }
    }
}

impl DeepView for QueueItem {
    type V = ItemView;

    open spec fn deep_view(&self) -> ItemView {
        self@
    }
}

impl Clone for QueueItem {
    fn clone(&self) -> (r: Self)
        ensures
            r@ == self@,
    {
        let r = QueueItem {
            id: self.id,
            input: self.input.clone(),
            output: self.output.clone(),
            enabled: self.enabled,
            status: self.status,
            progress_milli: self.progress_milli,
            eta_us: self.eta_us,
            media: match &self.media {
                Some(value) => Some(value.clone()),
                None => None,
            },
            plan: match &self.plan {
                Some(value) => Some(value.clone()),
                None => None,
            },
            error: text::copy_text(&self.error),
        };
        r
    }
}

/// The place of the first file of a number at or behind a place.
pub open spec fn index_of(queue: Seq<ItemView>, id: u64, from: int) -> Option<int>
    decreases queue.len() - from,
{
    if from >= queue.len() || from < 0 {
        None
    } else if queue[from].id == id {
        Some(from)
    } else {
        index_of(queue, id, from + 1)
    }
}

/// The place of a number is a place of the queue.
pub proof fn lemma_index_of(queue: Seq<ItemView>, id: u64, from: int)
    requires
        0 <= from,
    ensures
        match index_of(queue, id, from) {
            Some(i) => from <= i < queue.len() && queue[i].id == id && (forall|k: int|
                from <= k < i ==> (#[trigger] queue[k]).id != id),
            None => forall|k: int| from <= k < queue.len() ==> (#[trigger] queue[k]).id != id,
        },
    decreases queue.len() - from,
{
    if from < queue.len() && queue[from].id != id {
        lemma_index_of(queue, id, from + 1);
    }
}

/// The place of the first file of a number.
pub fn find_item(queue: &Vec<QueueItem>, id: u64) -> (r: Option<usize>)
    ensures
        match r {
            Some(i) => i < queue@.len() && index_of(queue.deep_view(), id, 0) == Some(i as int),
            None => index_of(queue.deep_view(), id, 0) is None,
        },
{
    let ghost all = queue.deep_view();
    let mut i: usize = 0;
    while i < queue.len()
        invariant
            all == queue.deep_view(),
            i <= queue@.len(),
            index_of(all, id, 0) == index_of(all, id, i as int),
        decreases queue@.len() - i,
    {
        proof {
            assert(all[i as int] == queue@[i as int]@);
        }
        if queue[i].id == id {
            return Some(i);
        }
        i = i + 1;
    }
    None
}

fn replace(queue: &mut Vec<QueueItem>, i: usize, item: QueueItem)
    requires
        i < old(queue)@.len(),
    ensures
        final(queue).deep_view() == old(queue).deep_view().update(i as int, item@),
        final(queue)@.len() == old(queue)@.len(),
{
    let ghost before = queue.deep_view();
    queue.set(i, item);
    proof {
        assert(queue.deep_view() =~= before.update(i as int, item@));
    }
}

/// Whether one of the first `n` files is this one.
pub open spec fn holds(queue: Seq<ItemView>, n: int, input: Seq<u8>) -> bool {
    exists|i: int| 0 <= i < n && path::same_path(#[trigger] queue[i].input, input)
}

fn has_input(queue: &Vec<QueueItem>, n: usize, input: &FilePath) -> (r: bool)
    requires
        n <= queue@.len(),
    ensures
        r == holds(queue.deep_view(), n as int, input@),
{
    let ghost all = queue.deep_view();
    let mut i: usize = 0;
    while i < n
        invariant
            all == queue.deep_view(),
            i <= n <= queue@.len(),
            forall|k: int| 0 <= k < i ==> !path::same_path(#[trigger] all[k].input, input@),
        decreases n - i,
    {
        proof {
            assert(all[i as int] == queue@[i as int]@);
        }
        if queue[i].input.same(input) {
            proof {
                assert(path::same_path(all[i as int].input, input@));
            }
            return true;
        }
        i = i + 1;
    }
    false
}

/// A queue that files were added to.
pub struct Enqueued {
    /// The queue.
    pub queue: Seq<ItemView>,
    /// The number of the next file.
    pub next_id: u64,
    /// The files that were added.
    pub fresh: Seq<(u64, Seq<u8>)>,
}

/// A file that nothing is known of.
pub open spec fn new_item(id: u64, input: Seq<u8>, directory: Option<Seq<u8>>) -> ItemView {
    ItemView {
        id,
        input,
        output: session::output_for(input, directory),
        enabled: true,
        status: QueueStatus::Probing,
        progress_milli: None,
        eta_us: None,
        media: None,
        plan: None,
        error: None,
    }
}

/// The number behind a number.
pub open spec fn next_number(id: u64) -> u64 {
    if id == u64::MAX {
        id
    } else {
        (id + 1) as u64
    }
}

/// The queue with those inputs added that are not in it: in the terminal also none twice.
pub open spec fn enqueued(
    queue: Seq<ItemView>,
    next_id: u64,
    inputs: Seq<Seq<u8>>,
    directory: Option<Seq<u8>>,
    interface: Interface,
) -> Enqueued
    decreases inputs.len(),
{
    if inputs.len() == 0 {
        Enqueued { queue, next_id, fresh: seq![] }
    } else {
        let before = enqueued(queue, next_id, inputs.drop_last(), directory, interface);
        let input = inputs.last();
        let known = match interface {
            Interface::Terminal => before.queue.len() as int,
            Interface::Desktop => queue.len() as int,
        };
        if holds(before.queue, known, input) {
            before
        } else {
            Enqueued {
                queue: before.queue.push(new_item(before.next_id, input, directory)),
                next_id: next_number(before.next_id),
                fresh: before.fresh.push((before.next_id, input)),
            }
        }
    }
}

/// What is told of files with their numbers.
pub open spec fn fresh_told(fresh: Seq<(u64, FilePath)>) -> Seq<(u64, Seq<u8>)> {
    Seq::new(fresh.len(), |i: int| (fresh[i].0, fresh[i].1@))
}

/// Adds those inputs to the queue that are not in it.
pub fn enqueue(
    queue: &mut Vec<QueueItem>,
    next_id: u64,
    inputs: &Vec<FilePath>,
    directory: &Option<FilePath>,
    interface: Interface,
) -> (r: (u64, Vec<(u64, FilePath)>))
    ensures
        ({
            let after = enqueued(
                old(queue).deep_view(),
                next_id,
                inputs.deep_view(),
                directory.deep_view(),
                interface,
            );
            &&& final(queue).deep_view() == after.queue
            &&& r.0 == after.next_id
            &&& fresh_told(r.1@) == after.fresh
        }),
{
    let ghost start = queue.deep_view();
    let ghost all = inputs.deep_view();
    let ghost dir = directory.deep_view();
    let first: usize = queue.len();
    let mut number: u64 = next_id;
    let mut fresh: Vec<(u64, FilePath)> = Vec::new();
    let mut i: usize = 0;
    proof {
        assert(all.take(0) =~= seq![]);
        assert(fresh_told(fresh@) =~= seq![]);
    }
    while i < inputs.len()
        invariant
            all == inputs.deep_view(),
            dir == directory.deep_view(),
            first == start.len(),
            first <= queue@.len(),
            i <= inputs@.len(),
            queue.deep_view() == enqueued(start, next_id, all.take(i as int), dir, interface).queue,
            number == enqueued(start, next_id, all.take(i as int), dir, interface).next_id,
            fresh_told(fresh@) == enqueued(start, next_id, all.take(i as int), dir, interface).fresh,
        decreases inputs@.len() - i,
    {
        let ghost before = queue.deep_view();
        let ghost told = fresh_told(fresh@);
        let input = &inputs[i];
        proof {
            assert(all.take(i + 1).drop_last() =~= all.take(i as int));
            assert(all.take(i + 1).last() == all[i as int]);
            assert(all[i as int] == inputs@[i as int]@);
            assert(before.len() == queue@.len());
        }
        let known: usize = match interface {
            Interface::Terminal => queue.len(),
            Interface::Desktop => first,
        };
        if !has_input(queue, known, input) {
            let item = QueueItem {
                id: number,
                input: input.clone(),
                output: session::default_output(input, directory),
                enabled: true,
                status: QueueStatus::Probing,
                progress_milli: None,
                eta_us: None,
                media: None,
                plan: None,
                error: None,
            };
            let ghost shown = item@;
            queue.push(item);
            fresh.push((number, input.clone()));
            proof {
                assert(shown == new_item(number, input@, dir));
                assert(queue.deep_view() =~= before.push(shown));
                assert(fresh_told(fresh@) =~= told.push((number, input@)));
            }
            if number < u64::MAX {
                number = number + 1;
            }
        }
        i = i + 1;
    }
    proof {
        assert(all.take(i as int) =~= all);
    }
    (number, fresh)
}

/// A file of the queue as its batch shows it.
pub open spec fn shown_item(item: ItemView, file: FileStateView) -> ItemView {
    ItemView {
        status: status_in_queue(file.status),
        progress_milli: session::progress_of(file.position_us, file.duration_us),
        eta_us: file.eta_us,
        ..item
    }
}

/// The file of the queue that stands at a place of a batch.
pub open spec fn batch_index(queue: Seq<ItemView>, active: Seq<u64>, place: usize) -> Option<int> {
    if place < active.len() {
        index_of(queue, active[place as int], 0)
    } else {
        None
    }
}

fn find_in_batch(queue: &Vec<QueueItem>, active: &Vec<u64>, place: usize) -> (r: Option<usize>)
    ensures
        match r {
            Some(i) => i < queue@.len() && batch_index(queue.deep_view(), active@, place) == Some(
                i as int,
            ),
            None => batch_index(queue.deep_view(), active@, place) is None,
        },
{
    if place < active.len() {
        find_item(queue, active[place])
    } else {
        None
    }
}

/// The queue as a batch shows its files.
pub open spec fn shown(
    queue: Seq<ItemView>,
    active: Seq<u64>,
    files: Seq<FileStateView>,
) -> Seq<ItemView>
    decreases files.len(),
{
    if files.len() == 0 {
        queue
    } else {
        let before = shown(queue, active, files.drop_last());
        match batch_index(before, active, files.last().id) {
            Some(i) => before.update(i, shown_item(before[i], files.last())),
            None => before,
        }
    }
}

/// Shows the files of a batch in the queue.
pub fn show_files(queue: &mut Vec<QueueItem>, active: &Vec<u64>, files: &Vec<FileProgressState>)
    ensures
        final(queue).deep_view() == shown(old(queue).deep_view(), active@, files.deep_view()),
{
    let ghost start = queue.deep_view();
    let ghost all = files.deep_view();
    let mut k: usize = 0;
    proof {
        assert(all.take(0) =~= seq![]);
    }
    while k < files.len()
        invariant
            all == files.deep_view(),
            k <= files@.len(),
            queue.deep_view() == shown(start, active@, all.take(k as int)),
        decreases files@.len() - k,
    {
        let ghost before = queue.deep_view();
        proof {
            assert(all.take(k + 1).drop_last() =~= all.take(k as int));
            assert(all.take(k + 1).last() == all[k as int]);
            assert(all[k as int] == files@[k as int]@);
        }
        let file = &files[k];
        match find_in_batch(queue, active, file.id().get()) {
            Some(i) => {
                proof {
                    assert(before[i as int] == queue@[i as int]@);
                }
                let mut item = queue[i].clone();
                item.status = queue_status(file.status());
                item.progress_milli = session::measure_progress(
                    file.position_us(),
                    file.duration_us(),
                );
                item.eta_us = match file.eta() {
                    Some(d) => Some(d.get()),
                    None => None,
                };
                proof {
                    assert(item@ == shown_item(before[i as int], file@));
                }
                replace(queue, i, item);
            },
            None => {},
        }
        k = k + 1;
    }
    proof {
        assert(all.take(k as int) =~= all);
    }
}

/// What is shown of a failure.
pub open spec fn failure_text(failure: FileFailureView, interface: Interface) -> Seq<char> {
    match interface {
        Interface::Terminal => failure.stage.label() + ": "@ + failure.message,
        Interface::Desktop => failure.stage.label() + " failed: "@ + failure.message
            + ". Fix the cause and retry."@,
    }
}

/// A file of the queue after its batch.
pub open spec fn concluded_item(
    item: ItemView,
    outcome: FileOutcomeView,
    interface: Interface,
) -> ItemView {
    ItemView {
        progress_milli: Some(1_000u16),
        eta_us: match interface {
            Interface::Terminal => None,
            Interface::Desktop => Some(0u64),
        },
        status: status_in_queue(batch::status_of(outcome)),
        error: match outcome {
            FileOutcomeView::Failed(failure) => Some(failure_text(failure, interface)),
            _ => item.error,
        },
        ..item
    }
}

/// The queue after a batch.
pub open spec fn concluded(
    queue: Seq<ItemView>,
    active: Seq<u64>,
    results: Seq<FileResultView>,
    interface: Interface,
) -> Seq<ItemView>
    decreases results.len(),
{
    if results.len() == 0 {
        queue
    } else {
        let before = concluded(queue, active, results.drop_last(), interface);
        match batch_index(before, active, results.last().id) {
            Some(i) => before.update(
                i,
                concluded_item(before[i], results.last().outcome, interface),
            ),
            None => before,
        }
    }
}

fn show_failure(failure: &FileFailure, interface: Interface) -> (r: String)
    ensures
        r@ == failure_text(failure@, interface),
{
    match interface {
        Interface::Terminal => text::concat3(failure.stage().as_str(), ": ", failure.message()),
        Interface::Desktop => {
            let mut out = text::concat3(
                failure.stage().as_str(),
                " failed: ",
                failure.message(),
            );
            text::push_text(&mut out, ". Fix the cause and retry.");
            out
        },
    }
}

/// Takes the results of a batch into the queue.
pub fn conclude(
    queue: &mut Vec<QueueItem>,
    active: &Vec<u64>,
    results: &Vec<FileResult>,
    interface: Interface,
)
    ensures
        final(queue).deep_view() == concluded(
            old(queue).deep_view(),
            active@,
            results.deep_view(),
            interface,
        ),
{
    let ghost start = queue.deep_view();
    let ghost all = results.deep_view();
    let mut k: usize = 0;
    proof {
        assert(all.take(0) =~= seq![]);
    }
    while k < results.len()
        invariant
            all == results.deep_view(),
            k <= results@.len(),
            queue.deep_view() == concluded(start, active@, all.take(k as int), interface),
        decreases results@.len() - k,
    {
        let ghost before = queue.deep_view();
        proof {
            assert(all.take(k + 1).drop_last() =~= all.take(k as int));
            assert(all.take(k + 1).last() == all[k as int]);
            assert(all[k as int] == results@[k as int]@);
        }
        let result = &results[k];
        match find_in_batch(queue, active, result.id().get()) {
            Some(i) => {
                proof {
                    assert(before[i as int] == queue@[i as int]@);
                }
                let mut item = queue[i].clone();
                item.progress_milli = Some(1_000);
                item.eta_us = match interface {
                    Interface::Terminal => None,
                    Interface::Desktop => Some(0),
                };
                item.status = queue_status(status_for_outcome(result.outcome()));
                match result.outcome() {
                    FileOutcome::Failed(failure) => {
                        item.error = Some(show_failure(failure, interface));
                    },
                    _ => {},
                }
                proof {
                    assert(item@ == concluded_item(before[i as int], result@.outcome, interface));
                }
                replace(queue, i, item);
            },
            None => {},
        }
        k = k + 1;
    }
    proof {
        assert(all.take(k as int) =~= all);
    }
}

/// What is shown where there is no plan.
pub open spec fn trouble_text(trouble: PlanTroubleView, interface: Interface) -> Seq<char> {
    match (trouble, interface) {
        (PlanTroubleView::Plan(message), Interface::Desktop) => message
            + ". Adjust settings and retry."@,
        (PlanTroubleView::Plan(message), Interface::Terminal) => message,
        (PlanTroubleView::Settings(message), _) => message,
    }
}

/// A file with its plan made again, where it is known what is in it.
pub open spec fn replanned_item(
    item: ItemView,
    settings: PlanSettingsView,
    interface: Interface,
) -> ItemView {
    match item.media {
        None => item,
        Some(media) => match session::planned(media, settings, item.output) {
            Ok(o) => ItemView {
                status: match o {
                    PlanOutcomeView::Execute(_) => QueueStatus::Ready,
                    PlanOutcomeView::Skip(_) => QueueStatus::Compatible,
                },
                plan: Some(o),
                error: None,
                ..item
            },
            Err(trouble) => ItemView {
                status: QueueStatus::Failed,
                plan: match trouble {
                    PlanTroubleView::Plan(_) => None,
                    PlanTroubleView::Settings(_) => item.plan,
                },
                error: Some(trouble_text(trouble, interface)),
                ..item
            },
        },
    }
}

/// A file with its output and its plan made again. In the terminal the output of a file stays as
/// long as it is not known what is in it.
pub open spec fn rebuilt_item(
    item: ItemView,
    settings: PlanSettingsView,
    interface: Interface,
) -> ItemView {
    if item.media is None && interface == Interface::Terminal {
        item
    } else {
        replanned_item(
            ItemView {
                output: session::output_for(item.input, settings.output_directory),
                ..item
            },
            settings,
            interface,
        )
    }
}

/// The queue with all outputs and plans made again.
pub open spec fn rebuilt(
    queue: Seq<ItemView>,
    settings: PlanSettingsView,
    interface: Interface,
) -> Seq<ItemView> {
    Seq::new(queue.len(), |i: int| rebuilt_item(queue[i], settings, interface))
}

/// Makes the plan of a file again.
pub fn replan_item(item: &mut QueueItem, settings: &PlanSettings, interface: Interface)
    ensures
        final(item)@ == replanned_item(old(item)@, settings@, interface),
{
    let made = match &item.media {
        Some(media) => session::build_plan(media, settings, &item.output),
        None => {
            return;
        },
    };
    match made {
        Ok(o) => {
            item.status = match &o {
                PlanOutcome::Execute(_) => QueueStatus::Ready,
                PlanOutcome::Skip(_) => QueueStatus::Compatible,
            };
            item.plan = Some(o);
            item.error = None;
        },
        Err(PlanTrouble::Settings(message)) => {
            item.status = QueueStatus::Failed;
            item.error = Some(message);
        },
        Err(PlanTrouble::Plan(message)) => {
            item.status = QueueStatus::Failed;
            item.plan = None;
            item.error = Some(
                match interface {
                    Interface::Terminal => message,
                    Interface::Desktop => text::concat2(
                        message.as_str(),
                        ". Adjust settings and retry.",
                    ),
                },
            );
        },
    }
}

/// Makes all outputs and plans of the queue again.
pub fn rebuild(queue: &mut Vec<QueueItem>, settings: &PlanSettings, interface: Interface)
    ensures
        final(queue).deep_view() == rebuilt(old(queue).deep_view(), settings@, interface),
{
    let ghost start = queue.deep_view();
    let n: usize = queue.len();
    let mut i: usize = 0;
    while i < n
        invariant
            n == queue@.len(),
            n == start.len(),
            i <= n,
            forall|k: int|
                0 <= k < i ==> (#[trigger] queue.deep_view()[k]) == rebuilt_item(
                    start[k],
                    settings@,
                    interface,
                ),
            forall|k: int| i <= k < n ==> (#[trigger] queue.deep_view()[k]) == start[k],
        decreases n - i,
    {
        proof {
            assert(queue.deep_view()[i as int] == queue@[i as int]@);
        }
        let keep = match interface {
            Interface::Terminal => queue[i].media.is_none(),
            Interface::Desktop => false,
        };
        if !keep {
            let mut item = queue[i].clone();
            item.output = session::default_output(&item.input, &settings.output_directory);
            replan_item(&mut item, settings, interface);
            replace(queue, i, item);
        }
        i = i + 1;
    }
    proof {
        assert(queue.deep_view() =~= rebuilt(start, settings@, interface));
    }
}

/// Whether some file of the queue is enabled.
pub open spec fn some_enabled(queue: Seq<ItemView>) -> bool {
    exists|i: int| 0 <= i < queue.len() && (#[trigger] queue[i]).enabled
}

/// Whether the enabled files of the queue can be given to a batch.
pub open spec fn startable(queue: Seq<ItemView>) -> bool {
    some_enabled(queue) && forall|i: int|
        0 <= i < queue.len() && (#[trigger] queue[i]).enabled ==> queue[i].status.startable()
}

/// Whether some file of the queue is enabled.
pub fn any_enabled(queue: &Vec<QueueItem>) -> (r: bool)
    ensures
        r == some_enabled(queue.deep_view()),
{
    let ghost all = queue.deep_view();
    let mut i: usize = 0;
    while i < queue.len()
        invariant
            all == queue.deep_view(),
            i <= queue@.len(),
            forall|k: int| 0 <= k < i ==> !(#[trigger] all[k]).enabled,
        decreases queue@.len() - i,
    {
        proof {
            assert(all[i as int] == queue@[i as int]@);
        }
        if queue[i].enabled {
            return true;
        }
        i = i + 1;
    }
    false
}

/// Whether the enabled files of the queue can be given to a batch.
pub fn can_start(queue: &Vec<QueueItem>) -> (r: bool)
    ensures
        r == startable(queue.deep_view()),
{
    let ghost all = queue.deep_view();
    if !any_enabled(queue) {
        return false;
    }
    let mut i: usize = 0;
    while i < queue.len()
        invariant
            all == queue.deep_view(),
            i <= queue@.len(),
            forall|k: int|
                0 <= k < i && (#[trigger] all[k]).enabled ==> all[k].status.startable(),
        decreases queue@.len() - i,
    {
        proof {
            assert(all[i as int] == queue@[i as int]@);
        }
        if queue[i].enabled && !queue[i].status.can_start() {
            return false;
        }
        i = i + 1;
    }
    true
}

/// A file of the queue that was given to a batch. In the terminal the time that it still needs
/// stays as it was shown.
pub open spec fn started_item(item: ItemView, interface: Interface) -> ItemView {
    if item.enabled {
        ItemView {
            status: QueueStatus::Queued,
            progress_milli: None,
            eta_us: match interface {
                Interface::Terminal => item.eta_us,
                Interface::Desktop => None,
            },
            error: None,
            ..item
        }
    } else {
        item
    }
}

/// The queue with the enabled files given to a batch.
pub open spec fn started(queue: Seq<ItemView>, interface: Interface) -> Seq<ItemView> {
    Seq::new(queue.len(), |i: int| started_item(queue[i], interface))
}

/// The numbers of the enabled files, in order.
pub open spec fn enabled_ids(queue: Seq<ItemView>) -> Seq<u64>
    decreases queue.len(),
{
    if queue.len() == 0 {
        seq![]
    } else if queue.last().enabled {
        enabled_ids(queue.drop_last()).push(queue.last().id)
    } else {
        enabled_ids(queue.drop_last())
    }
}

/// What is asked of a batch for a file.
pub open spec fn request_for(
    item: ItemView,
    policy: PolicyView,
    target: TargetView,
    output_mode: OutputMode,
    remux: bool,
) -> FileRequestView {
    FileRequestView {
        input: item.input,
        output: item.output,
        compatibility: policy,
        target,
        output_mode,
        action: if remux {
            ActionRequestView::RemuxOnly(SelectionRequestView::FirstCompatible)
        } else {
            ActionRequestView::Convert
        },
    }
}

/// What is asked of a batch for the enabled files, in order.
pub open spec fn requests_for(
    queue: Seq<ItemView>,
    policy: PolicyView,
    target: TargetView,
    output_mode: OutputMode,
    remux: bool,
) -> Seq<FileRequestView>
    decreases queue.len(),
{
    if queue.len() == 0 {
        seq![]
    } else {
        let before = requests_for(queue.drop_last(), policy, target, output_mode, remux);
        if queue.last().enabled {
            before.push(request_for(queue.last(), policy, target, output_mode, remux))
        } else {
            before
        }
    }
}

/// Every enabled file is asked for once: the numbers and what is asked for go together.
pub proof fn law_every_enabled_file_is_asked_for(
    queue: Seq<ItemView>,
    policy: PolicyView,
    target: TargetView,
    output_mode: OutputMode,
    remux: bool,
)
    ensures
        enabled_ids(queue).len() == requests_for(queue, policy, target, output_mode, remux).len(),
        forall|i: int|
            0 <= i < queue.len() && (#[trigger] queue[i]).enabled ==> enabled_ids(queue).contains(
                queue[i].id,
            ),
    decreases queue.len(),
{
    if queue.len() > 0 {
        let rest = queue.drop_last();
        law_every_enabled_file_is_asked_for(rest, policy, target, output_mode, remux);
        assert forall|i: int| 0 <= i < queue.len() && (
        #[trigger] queue[i]).enabled implies enabled_ids(queue).contains(queue[i].id) by {
            let ids = enabled_ids(queue);
            if i < queue.len() - 1 {
                assert(rest[i] == queue[i]);
                let k = choose|k: int|
                    0 <= k < enabled_ids(rest).len() && enabled_ids(rest)[k] == queue[i].id;
                assert(ids[k] == queue[i].id);
            } else {
                assert(ids[ids.len() - 1] == queue[i].id);
            }
        }
    }
}

/// Gives the enabled files to a batch.
pub fn start(
    queue: &mut Vec<QueueItem>,
    policy: &CompatibilityPolicy,
    target: AudioTarget,
    output_mode: OutputMode,
    remux: bool,
    interface: Interface,
) -> (r: (Vec<u64>, Vec<FileRequest>))
    ensures
        final(queue).deep_view() == started(old(queue).deep_view(), interface),
        r.0@ == enabled_ids(old(queue).deep_view()),
        r.1.deep_view() == requests_for(
            old(queue).deep_view(),
            policy@,
            target@,
            output_mode,
            remux,
        ),
{
    let ghost all = queue.deep_view();
    let n: usize = queue.len();
    let mut ids: Vec<u64> = Vec::new();
    let mut requests: Vec<FileRequest> = Vec::new();
    let mut i: usize = 0;
    proof {
        assert(all.take(0) =~= seq![]);
        assert(requests.deep_view() =~= seq![]);
    }
    while i < n
        invariant
            n == queue@.len(),
            n == all.len(),
            i <= n,
            forall|k: int|
                0 <= k < i ==> (#[trigger] queue.deep_view()[k]) == started_item(
                    all[k],
                    interface,
                ),
            forall|k: int| i <= k < n ==> (#[trigger] queue.deep_view()[k]) == all[k],
            ids@ == enabled_ids(all.take(i as int)),
            requests.deep_view() == requests_for(
                all.take(i as int),
                policy@,
                target@,
                output_mode,
                remux,
            ),
        decreases n - i,
    {
        let ghost before = requests.deep_view();
        proof {
            assert(all.take(i + 1).drop_last() =~= all.take(i as int));
            assert(all.take(i + 1).last() == all[i as int]);
            assert(queue.deep_view()[i as int] == queue@[i as int]@);
        }
        if queue[i].enabled {
            let action = if remux {
                ActionRequest::RemuxOnly(AudioSelectionRequest::FirstCompatible)
            } else {
                ActionRequest::Convert
            };
            let mut item = queue[i].clone();
            ids.push(item.id);
            let request = FileRequest::new(
                item.input.clone(),
                item.output.clone(),
                policy.clone(),
                target,
                output_mode,
                action,
            );
            proof {
                assert(request@ == request_for(
                    all[i as int],
                    policy@,
                    target@,
                    output_mode,
                    remux,
                ));
            }
            let ghost asked = request@;
            requests.push(request);
            proof {
                assert(requests.deep_view() =~= before.push(asked));
            }
            item.status = QueueStatus::Queued;
            item.progress_milli = None;
            match interface {
                Interface::Terminal => {},
                Interface::Desktop => {
                    item.eta_us = None;
                },
            }
            item.error = None;
            replace(queue, i, item);
        }
        i = i + 1;
    }
    proof {
        assert(all.take(i as int) =~= all);
        assert(queue.deep_view() =~= started(all, interface));
    }
    (ids, requests)
}

/// A file of the queue that is tried again.
pub open spec fn retried_item(item: ItemView) -> ItemView {
    ItemView {
        enabled: true,
        status: if item.media is Some {
            QueueStatus::Ready
        } else {
            QueueStatus::Probing
        },
        error: None,
        ..item
    }
}

/// Whether a file of the queue is tried again: it has failed or was cancelled, and it was picked
/// where only some files are to be tried again.
pub open spec fn is_retried(item: ItemView, picked: Option<Seq<u64>>) -> bool {
    item.status.retryable() && (picked matches Some(ids) ==> ids.contains(item.id))
}

/// The queue with files tried again.
pub open spec fn retried(queue: Seq<ItemView>, picked: Option<Seq<u64>>) -> Seq<ItemView> {
    Seq::new(
        queue.len(),
        |i: int|
            if is_retried(queue[i], picked) {
                retried_item(queue[i])
            } else {
                queue[i]
            },
    )
}

/// The files that are to be inspected again, in order.
pub open spec fn reprobed(queue: Seq<ItemView>, picked: Option<Seq<u64>>) -> Seq<(u64, Seq<u8>)>
    decreases queue.len(),
{
    if queue.len() == 0 {
        seq![]
    } else if is_retried(queue.last(), picked) && queue.last().media is None {
        reprobed(queue.drop_last(), picked).push((queue.last().id, queue.last().input))
    } else {
        reprobed(queue.drop_last(), picked)
    }
}

fn holds_id(ids: &Vec<u64>, id: u64) -> (r: bool)
    ensures
        r == ids@.contains(id),
{
    let mut i: usize = 0;
    while i < ids.len()
        invariant
            i <= ids@.len(),
            forall|k: int| 0 <= k < i ==> ids@[k] != id,
        decreases ids@.len() - i,
    {
        if ids[i] == id {
            return true;
        }
        i = i + 1;
    }
    false
}

/// What is told of numbers that were picked.
pub open spec fn picked_told(picked: Option<&Vec<u64>>) -> Option<Seq<u64>> {
    match picked {
        Some(ids) => Some(ids@),
        None => None,
    }
}

/// Tries files again and tells which are to be inspected.
pub fn retry(queue: &mut Vec<QueueItem>, picked: Option<&Vec<u64>>) -> (r: Vec<(u64, FilePath)>)
    ensures
        final(queue).deep_view() == retried(old(queue).deep_view(), picked_told(picked)),
        fresh_told(r@) == reprobed(old(queue).deep_view(), picked_told(picked)),
{
    let ghost all = queue.deep_view();
    let ghost chosen = picked_told(picked);
    let n: usize = queue.len();
    let mut out: Vec<(u64, FilePath)> = Vec::new();
    let mut i: usize = 0;
    proof {
        assert(all.take(0) =~= seq![]);
        assert(fresh_told(out@) =~= seq![]);
    }
    while i < n
        invariant
            chosen == picked_told(picked),
            n == queue@.len(),
            n == all.len(),
            i <= n,
            forall|k: int|
                0 <= k < i ==> (#[trigger] queue.deep_view()[k]) == (if is_retried(
                    all[k],
                    chosen,
                ) {
                    retried_item(all[k])
                } else {
                    all[k]
                }),
            forall|k: int| i <= k < n ==> (#[trigger] queue.deep_view()[k]) == all[k],
            fresh_told(out@) == reprobed(all.take(i as int), chosen),
        decreases n - i,
    {
        let ghost told = fresh_told(out@);
        proof {
            assert(all.take(i + 1).drop_last() =~= all.take(i as int));
            assert(all.take(i + 1).last() == all[i as int]);
            assert(queue.deep_view()[i as int] == queue@[i as int]@);
        }
        let over = match queue[i].status {
            QueueStatus::Failed => true,
            QueueStatus::Cancelled => true,
            _ => false,
        };
        let wanted = match picked {
            Some(ids) => holds_id(ids, queue[i].id),
            None => true,
        };
        if over && wanted {
            let mut item = queue[i].clone();
            item.enabled = true;
            item.error = None;
            if item.media.is_some() {
                item.status = QueueStatus::Ready;
            } else {
                item.status = QueueStatus::Probing;
                out.push((item.id, item.input.clone()));
                proof {
                    assert(fresh_told(out@) =~= told.push((item.id, item.input@)));
                }
            }
            replace(queue, i, item);
        }
        i = i + 1;
    }
    proof {
        assert(all.take(i as int) =~= all);
        assert(queue.deep_view() =~= retried(all, chosen));
    }
    out
}

/// The queue with one file enabled or not.
pub fn set_enabled(queue: &mut Vec<QueueItem>, i: usize, enabled: bool)
    requires
        i < old(queue)@.len(),
    ensures
        final(queue).deep_view() == old(queue).deep_view().update(
            i as int,
            ItemView { enabled, ..old(queue).deep_view()[i as int] },
        ),
        final(queue)@.len() == old(queue)@.len(),
{
    proof {
        assert(queue.deep_view()[i as int] == queue@[i as int]@);
    }
    let mut item = queue[i].clone();
    item.enabled = enabled;
    replace(queue, i, item);
}

/// A file of the queue that could not be inspected.
pub open spec fn unprobed_item(item: ItemView, message: Seq<char>) -> ItemView {
    ItemView { status: QueueStatus::Failed, error: Some(message), ..item }
}

/// Takes what was found in a file.
pub fn set_media(
    queue: &mut Vec<QueueItem>,
    i: usize,
    media: MediaInfo,
    settings: &PlanSettings,
    interface: Interface,
)
    requires
        i < old(queue)@.len(),
    ensures
        final(queue).deep_view() == old(queue).deep_view().update(
            i as int,
            replanned_item(
                ItemView { media: Some(media@), ..old(queue).deep_view()[i as int] },
                settings@,
                interface,
            ),
        ),
        final(queue)@.len() == old(queue)@.len(),
{
    proof {
        assert(queue.deep_view()[i as int] == queue@[i as int]@);
    }
    let mut item = queue[i].clone();
    item.media = Some(media);
    replan_item(&mut item, settings, interface);
    replace(queue, i, item);
}

/// Takes that a file could not be inspected.
pub fn set_unprobed(queue: &mut Vec<QueueItem>, i: usize, message: String)
    requires
        i < old(queue)@.len(),
    ensures
        final(queue).deep_view() == old(queue).deep_view().update(
            i as int,
            unprobed_item(old(queue).deep_view()[i as int], message@),
        ),
        final(queue)@.len() == old(queue)@.len(),
{
    proof {
        assert(queue.deep_view()[i as int] == queue@[i as int]@);
    }
    let mut item = queue[i].clone();
    item.status = QueueStatus::Failed;
    item.error = Some(message);
    replace(queue, i, item);
}

/// Whether the numbers of the files are below the next one and no two are the same.
pub open spec fn numbered(queue: Seq<ItemView>, next_id: u64) -> bool {
    &&& forall|i: int| 0 <= i < queue.len() ==> (#[trigger] queue[i]).id < next_id
    &&& forall|i: int, j: int|
        0 <= i < queue.len() && 0 <= j < queue.len() && i != j ==> (#[trigger] queue[i]).id != (
        #[trigger] queue[j]).id
}

/// Numbers stay unique as long as they do not run out.
pub proof fn law_numbers_stay_unique(
    queue: Seq<ItemView>,
    next_id: u64,
    inputs: Seq<Seq<u8>>,
    directory: Option<Seq<u8>>,
    interface: Interface,
)
    requires
        numbered(queue, next_id),
        next_id + inputs.len() < u64::MAX,
    ensures
        ({
            let after = enqueued(queue, next_id, inputs, directory, interface);
            &&& numbered(after.queue, after.next_id)
            &&& after.next_id <= next_id + inputs.len()
            &&& after.queue.len() == queue.len() + after.fresh.len()
        }),
    decreases inputs.len(),
{
    if inputs.len() > 0 {
        law_numbers_stay_unique(queue, next_id, inputs.drop_last(), directory, interface);
    }
}

/// In the desktop no file comes into the queue twice either, as long as none is given twice at once.
pub proof fn law_distinct_inputs_are_queued_once(
    queue: Seq<ItemView>,
    next_id: u64,
    inputs: Seq<Seq<u8>>,
    directory: Option<Seq<u8>>,
    i: int,
    j: int,
)
    requires
        forall|a: int, b: int|
            0 <= a < b < queue.len() ==> !path::same_path(
                (#[trigger] queue[a]).input,
                (#[trigger] queue[b]).input,
            ),
        forall|a: int, b: int|
            0 <= a < b < inputs.len() ==> !path::same_path(
                #[trigger] inputs[a],
                #[trigger] inputs[b],
            ),
        0 <= i < j < enqueued(queue, next_id, inputs, directory, Interface::Desktop).queue.len(),
    ensures
        ({
            let after = enqueued(queue, next_id, inputs, directory, Interface::Desktop).queue;
            !path::same_path(after[i].input, after[j].input)
        }),
    decreases inputs.len(),
{
    let after = enqueued(queue, next_id, inputs, directory, Interface::Desktop).queue;
    if inputs.len() == 0 {
        assert(!path::same_path(queue[i].input, queue[j].input));
    } else {
        let rest = inputs.drop_last();
        let before = enqueued(queue, next_id, rest, directory, Interface::Desktop).queue;
        assert forall|a: int, b: int| 0 <= a < b < rest.len() implies !path::same_path(
            #[trigger] rest[a],
            #[trigger] rest[b],
        ) by {
            assert(!path::same_path(inputs[a], inputs[b]));
        }
        lemma_queue_holds_what_was_given(queue, next_id, rest, directory);
        if j < before.len() {
            law_distinct_inputs_are_queued_once(queue, next_id, rest, directory, i, j);
            assert(after[i] == before[i] && after[j] == before[j]);
        } else {
            assert(after[i] == before[i]);
            assert(after[j].input == inputs.last());
            if i < queue.len() {
                assert(!holds(before, queue.len() as int, inputs.last()));
                assert(!path::same_path(before[i].input, inputs.last()));
            } else {
                let k = choose|k: int| 0 <= k < rest.len() && #[trigger] rest[k] == before[i].input;
                assert(!path::same_path(inputs[k], inputs[inputs.len() - 1]));
            }
        }
    }
}

proof fn lemma_queue_holds_what_was_given(
    queue: Seq<ItemView>,
    next_id: u64,
    inputs: Seq<Seq<u8>>,
    directory: Option<Seq<u8>>,
)
    ensures
        ({
            let after = enqueued(queue, next_id, inputs, directory, Interface::Desktop).queue;
            &&& queue.len() <= after.len()
            &&& forall|i: int| 0 <= i < queue.len() ==> #[trigger] after[i] == queue[i]
            &&& forall|i: int|
                queue.len() <= i < after.len() ==> exists|k: int|
                    0 <= k < inputs.len() && #[trigger] inputs[k] == (#[trigger] after[i]).input
        }),
    decreases inputs.len(),
{
    if inputs.len() > 0 {
        let rest = inputs.drop_last();
        lemma_queue_holds_what_was_given(queue, next_id, rest, directory);
        let before = enqueued(queue, next_id, rest, directory, Interface::Desktop).queue;
        let after = enqueued(queue, next_id, inputs, directory, Interface::Desktop).queue;
        assert forall|i: int| queue.len() <= i < after.len() implies exists|k: int|
            0 <= k < inputs.len() && #[trigger] inputs[k] == (#[trigger] after[i]).input by {
            if i < before.len() {
                assert(after[i] == before[i]);
                let k = choose|k: int| 0 <= k < rest.len() && #[trigger] rest[k] == before[i].input;
                assert(inputs[k] == after[i].input);
            } else {
                assert(inputs[inputs.len() - 1] == after[i].input);
            }
        }
    }
}

/// In the terminal no file comes into the queue twice.
pub proof fn law_inputs_are_queued_once(
    queue: Seq<ItemView>,
    next_id: u64,
    inputs: Seq<Seq<u8>>,
    directory: Option<Seq<u8>>,
    i: int,
    j: int,
)
    requires
        forall|a: int, b: int|
            0 <= a < b < queue.len() ==> !path::same_path(
                (#[trigger] queue[a]).input,
                (#[trigger] queue[b]).input,
            ),
        0 <= i < j < enqueued(queue, next_id, inputs, directory, Interface::Terminal).queue.len(),
    ensures
        ({
            let after = enqueued(queue, next_id, inputs, directory, Interface::Terminal).queue;
            !path::same_path(after[i].input, after[j].input)
        }),
    decreases inputs.len(),
{
    let after = enqueued(queue, next_id, inputs, directory, Interface::Terminal).queue;
    if inputs.len() == 0 {
        assert(!path::same_path(queue[i].input, queue[j].input));
    } else {
        let before = enqueued(
            queue,
            next_id,
            inputs.drop_last(),
            directory,
            Interface::Terminal,
        ).queue;
        if j < before.len() {
            law_inputs_are_queued_once(queue, next_id, inputs.drop_last(), directory, i, j);
            assert(after[i] == before[i] && after[j] == before[j]);
        } else {
            assert(!holds(before, before.len() as int, inputs.last()));
            assert(!path::same_path(before[i].input, inputs.last()));
            assert(after[i] == before[i]);
        }
    }
}

} // verus!
