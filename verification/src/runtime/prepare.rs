//! What is to be done with one file, and what became of it.
use vstd::prelude::*;
use vstd::string::*;
use vstd::utf8::*;

use crate::execution;
use crate::execution::{EventView, JobReport, JobReportView};
use crate::execution_laws;
use crate::media;
use crate::media::{MediaInfo, MediaInfoView};
use crate::model;
use crate::model::StreamIndex;
use crate::number;
use crate::path::FilePath;
use crate::plan;
use crate::plan::{
    ActionView, AudioSelector, JobPlan, JobPlanView, OutputMode, PlanOutcome, PlanOutcomeView,
    PlanningPolicy, PlanningView, RequestedAction, SelectorView,
};
use crate::policy::{
    Compatibility, CompatibilityPolicy, PolicyError, PolicyErrorView, PolicyView,
};
use crate::runtime::application;
use crate::runtime::application::{ExistingOutputOutcome, ExistingView};
use crate::runtime::error;
use crate::runtime::error::{runtime_error_cancelled, RuntimeError, RuntimeErrorView};
use crate::stream::{AudioStream, AudioStreamView};
use crate::target::{AudioTarget, TargetView};
use crate::text;
use crate::validate;

verus! {

/// Which audio is to become the default.
#[derive(Debug, PartialEq, Eq)]
pub enum AudioSelectionRequest {
    /// The first compatible stream.
    FirstCompatible,
    /// The compatible stream with this index.
    StreamIndex(StreamIndex),
    /// The only compatible stream in this language.
    Language(String),
}

/// Which audio is to become the default.
pub enum SelectionRequestView {
    /// The first compatible stream.
    FirstCompatible,
    /// The compatible stream with this index.
    StreamIndex(u32),
    /// The only compatible stream in this language.
    Language(Seq<char>),
}

impl View for AudioSelectionRequest {
    type V = SelectionRequestView;

    open spec fn view(&self) -> SelectionRequestView {
        match self {
            AudioSelectionRequest::FirstCompatible => SelectionRequestView::FirstCompatible,
            AudioSelectionRequest::StreamIndex(value) => SelectionRequestView::StreamIndex(value@),
            AudioSelectionRequest::Language(value) => SelectionRequestView::Language(value@),
        }
    }
}

impl DeepView for AudioSelectionRequest {
    type V = SelectionRequestView;

    open spec fn deep_view(&self) -> SelectionRequestView {
        self@
    }
}

impl Clone for AudioSelectionRequest {
    fn clone(&self) -> (r: Self)
        ensures
            r@ == self@,
    {
        match self {
            AudioSelectionRequest::FirstCompatible => AudioSelectionRequest::FirstCompatible,
            AudioSelectionRequest::StreamIndex(value) => AudioSelectionRequest::StreamIndex(*value),
            AudioSelectionRequest::Language(value) => AudioSelectionRequest::Language(value.clone()),
        }
    }
}

/// What is to be done with an input.
#[derive(Debug, PartialEq, Eq)]
pub enum ActionRequest {
    /// Encode incompatible audio.
    Convert,
    /// Copy everything and choose the default audio.
    RemuxOnly(AudioSelectionRequest),
}

/// What is to be done with an input.
pub enum ActionRequestView {
    /// Encode incompatible audio.
    Convert,
    /// Copy everything and choose the default audio.
    RemuxOnly(SelectionRequestView),
}

impl View for ActionRequest {
    type V = ActionRequestView;

    open spec fn view(&self) -> ActionRequestView {
        match self {
            ActionRequest::Convert => ActionRequestView::Convert,
            ActionRequest::RemuxOnly(value) => ActionRequestView::RemuxOnly(value@),
        }
    }
}

impl DeepView for ActionRequest {
    type V = ActionRequestView;

    open spec fn deep_view(&self) -> ActionRequestView {
        self@
    }
}

impl Clone for ActionRequest {
    fn clone(&self) -> (r: Self)
        ensures
            r@ == self@,
    {
        match self {
            ActionRequest::Convert => ActionRequest::Convert,
            ActionRequest::RemuxOnly(value) => ActionRequest::RemuxOnly(value.clone()),
        }
    }
}

/// An input and what is to be done with it.
#[derive(Debug, PartialEq, Eq)]
pub struct FileRequest {
    input: FilePath,
    output: FilePath,
    compatibility: CompatibilityPolicy,
    target: AudioTarget,
    output_mode: OutputMode,
    action: ActionRequest,
}

/// An input and what is to be done with it.
pub struct FileRequestView {
    /// The input.
    pub input: Seq<u8>,
    /// Where the output goes.
    pub output: Seq<u8>,
    /// Rules of the playback device.
    pub compatibility: PolicyView,
    /// Target of encoded audio.
    pub target: TargetView,
    /// What happens to the audio of the source.
    pub output_mode: OutputMode,
    /// What is to be done.
    pub action: ActionRequestView,
}

impl View for FileRequest {
    type V = FileRequestView;

    closed spec fn view(&self) -> FileRequestView {
        FileRequestView {
            input: self.input@,
            output: self.output@,
            compatibility: self.compatibility@,
            target: self.target@,
            output_mode: self.output_mode,
            action: self.action@,
        }
    }
}

impl DeepView for FileRequest {
    type V = FileRequestView;

    open spec fn deep_view(&self) -> FileRequestView {
        self@
    }
}

impl Clone for FileRequest {
    fn clone(&self) -> (r: Self)
        ensures
            r@ == self@,
    {
        let r = FileRequest {
            input: self.input.clone(),
            output: self.output.clone(),
            compatibility: self.compatibility.clone(),
            target: self.target,
            output_mode: self.output_mode,
            action: self.action.clone(),
        };
        r
    }
}

impl FileRequest {
    /// An input and what is to be done with it.
    pub fn new(input: FilePath, output: FilePath, compatibility: CompatibilityPolicy, target: AudioTarget, output_mode: OutputMode, action: ActionRequest) -> (r: Self)
        ensures
            r@ == (FileRequestView {
                input: input@,
                output: output@,
                compatibility: compatibility@,
                target: target@,
                output_mode: output_mode,
                action: action@,
            }),
    {
        FileRequest { input, output, compatibility, target, output_mode, action }
    }

    /// The input.
    pub fn input(&self) -> (r: &FilePath)
        ensures
            r@ == self@.input,
    {
        &self.input
    }

    /// Where the output goes.
    pub fn output(&self) -> (r: &FilePath)
        ensures
            r@ == self@.output,
    {
        &self.output
    }

    /// Rules of the playback device.
    pub fn compatibility(&self) -> (r: &CompatibilityPolicy)
        ensures
            r@ == self@.compatibility,
    {
        &self.compatibility
    }

    /// Target of encoded audio.
    pub fn target(&self) -> (r: AudioTarget)
        ensures
            r@ == self@.target,
    {
        self.target
    }

    /// What happens to the audio of the source.
    pub fn output_mode(&self) -> (r: OutputMode)
        ensures
            r == self@.output_mode,
    {
        self.output_mode
    }

    /// What is to be done.
    pub fn action(&self) -> (r: &ActionRequest)
        ensures
            r@ == self@.action,
    {
        &self.action
    }
}

/// What a failure means for the other files.
#[derive(Debug, Clone, Copy, PartialEq, Eq, Structural)]
pub enum FailurePolicy {
    /// Nothing.
    Continue,
    /// They are cancelled.
    FailFast,
}

impl DeepView for FailurePolicy {
    type V = FailurePolicy;

    open spec fn deep_view(&self) -> FailurePolicy {
        *self
    }
}

impl FailurePolicy {
    /// The name in machine output.
    pub open spec fn label(self) -> Seq<char> {
        match self {
            FailurePolicy::Continue => "continue"@,
            FailurePolicy::FailFast => "fail-fast"@,
        }
    }

    /// The name in machine output.
    pub fn as_str(self) -> (r: &'static str)
        ensures
            r@ == self.label(),
    {
        match self {
            FailurePolicy::Continue => "continue",
            FailurePolicy::FailFast => "fail-fast",
        }
    }
}

/// Where the work on a file failed.
#[derive(Debug, Clone, Copy, PartialEq, Eq, Structural)]
pub enum FailureStage {
    /// Inspecting the input.
    Probe,
    /// Choosing the audio.
    Selection,
    /// Making the plan.
    Plan,
    /// Looking at the output path.
    Conflict,
    /// Converting and publishing.
    Execute,
    /// In the scheduler.
    Internal,
}

impl DeepView for FailureStage {
    type V = FailureStage;

    open spec fn deep_view(&self) -> FailureStage {
        *self
    }
}

impl FailureStage {
    /// The name in machine output.
    pub open spec fn label(self) -> Seq<char> {
        match self {
            FailureStage::Probe => "probe"@,
            FailureStage::Selection => "selection"@,
            FailureStage::Plan => "plan"@,
            FailureStage::Conflict => "conflict"@,
            FailureStage::Execute => "execute"@,
            FailureStage::Internal => "internal"@,
        }
    }

    /// The name in machine output.
    pub fn as_str(self) -> (r: &'static str)
        ensures
            r@ == self.label(),
    {
        match self {
            FailureStage::Probe => "probe",
            FailureStage::Selection => "selection",
            FailureStage::Plan => "plan",
            FailureStage::Conflict => "conflict",
            FailureStage::Execute => "execute",
            FailureStage::Internal => "internal",
        }
    }
}

impl FailureStage {
    /// The exit code of a program that worked on one file.
    pub open spec fn code(self) -> u8 {
        match self {
            FailureStage::Probe => 4,
            FailureStage::Selection => 5,
            FailureStage::Plan => 5,
            FailureStage::Conflict => 6,
            FailureStage::Execute => 6,
            FailureStage::Internal => 6,
        }
    }

    /// The exit code of a program that worked on one file.
    pub fn exit_code(self) -> (r: u8)
        ensures
            r == self.code(),
    {
        match self {
            FailureStage::Probe => 4,
            FailureStage::Selection => 5,
            FailureStage::Plan => 5,
            FailureStage::Conflict => 6,
            FailureStage::Execute => 6,
            FailureStage::Internal => 6,
        }
    }
}

/// The most bytes of a failure message.
pub const MESSAGE_BYTES: usize = 8_192;

/// The last place, from this one back, where a text of these bytes can be cut.
pub open spec fn cut_at(bytes: Seq<u8>, place: int) -> int
    decreases place,
{
    if place <= 0 || is_char_boundary(bytes, place) {
        place
    } else {
        cut_at(bytes, place - 1)
    }
}

/// A message cut to the length that is kept, with an ellipsis where something was cut.
pub open spec fn bounded_message(message: Seq<char>) -> Seq<char> {
    let bytes = encode_utf8(message);
    if bytes.len() <= MESSAGE_BYTES {
        message
    } else {
        decode_utf8(bytes.take(cut_at(bytes, MESSAGE_BYTES as int))).push('\u{2026}')
    }
}

/// A message cut to the length that is kept.
pub fn bounded(message: String) -> (r: String)
    ensures
        r@ == bounded_message(message@),
{
    let s = message.as_str();
    let ghost bytes = encode_utf8(message@);
    if s.as_bytes().len() <= MESSAGE_BYTES {
        return message;
    }
    let mut place: usize = MESSAGE_BYTES;
    proof {
        encode_utf8_valid_utf8(message@);
    }
    while place > 0 && !s.is_char_boundary(place)
        invariant
            place <= MESSAGE_BYTES,
            bytes == encode_utf8(s@),
            cut_at(bytes, place as int) == cut_at(bytes, MESSAGE_BYTES as int),
        decreases place,
    {
        place = place - 1;
    }
    let (kept, _) = s.split_at(place);
    let mut out = kept.to_owned();
    proof {
        assert(bytes.subrange(0, place as int) =~= bytes.take(place as int));
        encode_utf8_decode_utf8(kept@);
        assert(kept@ == decode_utf8(bytes.take(place as int)));
    }
    out.push('\u{2026}');
    out
}

/// Why the work on a file failed.
#[derive(Debug, PartialEq, Eq)]
pub struct FileFailure {
    stage: FailureStage,
    message: String,
}

/// Why the work on a file failed.
pub struct FileFailureView {
    /// Where.
    pub stage: FailureStage,
    /// How.
    pub message: Seq<char>,
}

impl View for FileFailure {
    type V = FileFailureView;

    closed spec fn view(&self) -> FileFailureView {
        FileFailureView {
            stage: self.stage,
            message: self.message@,
        }
    }
}

impl DeepView for FileFailure {
    type V = FileFailureView;

    open spec fn deep_view(&self) -> FileFailureView {
        self@
    }
}

impl Clone for FileFailure {
    fn clone(&self) -> (r: Self)
        ensures
            r@ == self@,
    {
        let r = FileFailure {
            stage: self.stage,
            message: self.message.clone(),
        };
        r
    }
}

impl FileFailure {
    /// Where.
    pub fn stage(&self) -> (r: FailureStage)
        ensures
            r == self@.stage,
    {
        self.stage
    }

    /// How.
    pub fn message(&self) -> (r: &str)
        ensures
            r@ == self@.message,
    {
        self.message.as_str()
    }
}

/// A failure with its message cut to the length that is kept.
pub open spec fn failure(stage: FailureStage, message: Seq<char>) -> FileFailureView {
    FileFailureView { stage, message: bounded_message(message) }
}

impl FileFailure {
    /// A failure with its message cut to the length that is kept.
    pub fn new(stage: FailureStage, message: String) -> (r: Self)
        ensures
            r@ == failure(stage, message@),
    {
        FileFailure { stage, message: bounded(message) }
    }
}

/// Why nothing was done with a file.
#[derive(Debug, Clone, Copy, PartialEq, Eq, Structural)]
pub enum SkipReason {
    /// All its audio is compatible.
    NothingToDo,
    /// The output is there already.
    ValidExistingOutput,
}

impl DeepView for SkipReason {
    type V = SkipReason;

    open spec fn deep_view(&self) -> SkipReason {
        *self
    }
}

impl SkipReason {
    /// The name in machine output.
    pub open spec fn label(self) -> Seq<char> {
        match self {
            SkipReason::NothingToDo => "nothing-to-do"@,
            SkipReason::ValidExistingOutput => "valid-existing-output"@,
        }
    }

    /// The name in machine output.
    pub fn as_str(self) -> (r: &'static str)
        ensures
            r@ == self.label(),
    {
        match self {
            SkipReason::NothingToDo => "nothing-to-do",
            SkipReason::ValidExistingOutput => "valid-existing-output",
        }
    }
}

/// Who cancelled.
#[derive(Debug, Clone, Copy, PartialEq, Eq, Structural)]
pub enum CancellationReason {
    /// The user.
    User,
    /// A failure of another file.
    FailFast,
}

impl DeepView for CancellationReason {
    type V = CancellationReason;

    open spec fn deep_view(&self) -> CancellationReason {
        *self
    }
}

impl CancellationReason {
    /// The name in machine output.
    pub open spec fn label(self) -> Seq<char> {
        match self {
            CancellationReason::User => "user"@,
            CancellationReason::FailFast => "fail-fast"@,
        }
    }

    /// The name in machine output.
    pub fn as_str(self) -> (r: &'static str)
        ensures
            r@ == self.label(),
    {
        match self {
            CancellationReason::User => "user",
            CancellationReason::FailFast => "fail-fast",
        }
    }
}

/// What would be done with a file.
#[derive(Debug, PartialEq, Eq)]
pub struct DryRunReport {
    plan: JobPlan,
    existing: ExistingOutputOutcome,
}

/// What would be done with a file.
pub struct DryRunView {
    /// The plan.
    pub plan: JobPlanView,
    /// What is at the output path.
    pub existing: ExistingView,
}

impl View for DryRunReport {
    type V = DryRunView;

    closed spec fn view(&self) -> DryRunView {
        DryRunView {
            plan: self.plan@,
            existing: self.existing@,
        }
    }
}

impl DeepView for DryRunReport {
    type V = DryRunView;

    open spec fn deep_view(&self) -> DryRunView {
        self@
    }
}

impl Clone for DryRunReport {
    fn clone(&self) -> (r: Self)
        ensures
            r@ == self@,
    {
        let r = DryRunReport {
            plan: self.plan.clone(),
            existing: self.existing.clone(),
        };
        r
    }
}

impl DryRunReport {
    /// The plan.
    pub fn plan(&self) -> (r: &JobPlan)
        ensures
            r@ == self@.plan,
    {
        &self.plan
    }

    /// What is at the output path.
    pub fn existing(&self) -> (r: &ExistingOutputOutcome)
        ensures
            r@ == self@.existing,
    {
        &self.existing
    }
}

/// What became of a file.
#[derive(Debug, PartialEq, Eq)]
pub enum FileOutcome {
    /// Its output was published.
    Succeeded(JobReport),
    /// Nothing had to be done.
    Skipped(SkipReason),
    /// Something would be done.
    Planned(DryRunReport),
    /// The work on it failed.
    Failed(FileFailure),
    /// The work on it was cancelled.
    Cancelled(CancellationReason),
}

/// What became of a file.
pub enum FileOutcomeView {
    /// Its output was published.
    Succeeded(JobReportView),
    /// Nothing had to be done.
    Skipped(SkipReason),
    /// Something would be done.
    Planned(DryRunView),
    /// The work on it failed.
    Failed(FileFailureView),
    /// The work on it was cancelled.
    Cancelled(CancellationReason),
}

impl View for FileOutcome {
    type V = FileOutcomeView;

    open spec fn view(&self) -> FileOutcomeView {
        match self {
            FileOutcome::Succeeded(value) => FileOutcomeView::Succeeded(value@),
            FileOutcome::Skipped(value) => FileOutcomeView::Skipped(*value),
            FileOutcome::Planned(value) => FileOutcomeView::Planned(value@),
            FileOutcome::Failed(value) => FileOutcomeView::Failed(value@),
            FileOutcome::Cancelled(value) => FileOutcomeView::Cancelled(*value),
        }
    }
}

impl DeepView for FileOutcome {
    type V = FileOutcomeView;

    open spec fn deep_view(&self) -> FileOutcomeView {
        self@
    }
}

impl Clone for FileOutcome {
    fn clone(&self) -> (r: Self)
        ensures
            r@ == self@,
    {
        match self {
            FileOutcome::Succeeded(value) => FileOutcome::Succeeded(value.clone()),
            FileOutcome::Skipped(value) => FileOutcome::Skipped(*value),
            FileOutcome::Planned(value) => FileOutcome::Planned(value.clone()),
            FileOutcome::Failed(value) => FileOutcome::Failed(value.clone()),
            FileOutcome::Cancelled(value) => FileOutcome::Cancelled(*value),
        }
    }
}

/// What the preparation of a file came to.
#[derive(Debug, PartialEq, Eq)]
pub enum PreparedResult {
    /// It can be converted.
    Ready(JobPlan),
    /// There is nothing more to do.
    Terminal(FileOutcome),
}

/// What the preparation of a file came to.
pub enum PreparedView {
    /// It can be converted.
    Ready(JobPlanView),
    /// There is nothing more to do.
    Terminal(FileOutcomeView),
}

impl View for PreparedResult {
    type V = PreparedView;

    open spec fn view(&self) -> PreparedView {
        match self {
            PreparedResult::Ready(value) => PreparedView::Ready(value@),
            PreparedResult::Terminal(value) => PreparedView::Terminal(value@),
        }
    }
}

impl DeepView for PreparedResult {
    type V = PreparedView;

    open spec fn deep_view(&self) -> PreparedView {
        self@
    }
}

/// The outcome for a failure: a cancellation is none.
pub open spec fn outcome_of_error(error: RuntimeErrorView, stage: FailureStage) -> FileOutcomeView {
    if error::is_cancellation(error) {
        FileOutcomeView::Cancelled(CancellationReason::User)
    } else {
        FileOutcomeView::Failed(failure(stage, error.message()))
    }
}

/// The outcome for a failure: a cancellation is none.
pub fn outcome_from_runtime(error: RuntimeError, stage: FailureStage) -> (r: FileOutcome)
    ensures
        r@ == outcome_of_error(error@, stage),
{
    if runtime_error_cancelled(&error) {
        FileOutcome::Cancelled(CancellationReason::User)
    } else {
        FileOutcome::Failed(FileFailure::new(stage, error.message()))
    }
}

/// Whether audio is in a language, in either case.
pub open spec fn speaks(stream: AudioStreamView, language: Seq<char>) -> bool {
    match model::language_of(stream.common.metadata) {
        Some(tag) => text::lower(tag) == text::lower(language),
        None => false,
    }
}

/// The indices of the compatible audio in a language, or why the compatibility of one such stream
/// cannot be told.
pub open spec fn candidates(
    streams: Seq<AudioStreamView>,
    policy: PolicyView,
    language: Seq<char>,
) -> Result<Seq<u32>, PolicyErrorView>
    decreases streams.len(),
{
    if streams.len() == 0 {
        Ok(seq![])
    } else {
        match candidates(streams.drop_last(), policy, language) {
            Err(e) => Err(e),
            Ok(before) => if !speaks(streams.last(), language) {
                Ok(before)
            } else {
                match policy.classify(streams.last()) {
                    Err(e) => Err(e),
                    Ok(c) => if c is Compatible {
                        Ok(before.push(streams.last().common.index))
                    } else {
                        Ok(before)
                    },
                }
            },
        }
    }
}

/// Whether audio is compatible.
pub open spec fn accepts(policy: PolicyView, stream: AudioStreamView) -> bool {
    policy.classify(stream) matches Ok(c) && c is Compatible
}

/// Indices as text.
pub open spec fn index_texts(indices: Seq<u32>) -> Seq<Seq<char>> {
    Seq::new(indices.len(), |i: int| number::decimal(indices[i] as int))
}

/// The audio that a language stands for: there must be exactly one compatible stream in it.
pub open spec fn language_selection(
    media: MediaInfoView,
    policy: PolicyView,
    language: Seq<char>,
) -> Result<u32, FileFailureView> {
    match candidates(media::audio_of(media.streams), policy, language) {
        Err(e) => Err(failure(FailureStage::Selection, e.message())),
        Ok(found) => if found.len() == 1 {
            Ok(found[0])
        } else if found.len() == 0 {
            Err(
                failure(
                    FailureStage::Selection,
                    "no compatible audio stream matches language `"@ + language + "`"@,
                ),
            )
        } else {
            Err(
                failure(
                    FailureStage::Selection,
                    "language `"@ + language + "` is ambiguous; matching stream indices: "@
                        + text::join(index_texts(found), ", "@),
                ),
            )
        },
    }
}

/// What is asked for, once the audio is chosen.
pub open spec fn resolved_action(
    media: MediaInfoView,
    policy: PolicyView,
    request: ActionRequestView,
) -> Result<ActionView, FileFailureView> {
    match request {
        ActionRequestView::Convert => Ok(ActionView::Convert),
        ActionRequestView::RemuxOnly(SelectionRequestView::FirstCompatible) => Ok(
            ActionView::RemuxOnly { selection: SelectorView::FirstCompatible },
        ),
        ActionRequestView::RemuxOnly(SelectionRequestView::StreamIndex(index)) => Ok(
            ActionView::RemuxOnly { selection: SelectorView::StreamIndex(index) },
        ),
        ActionRequestView::RemuxOnly(SelectionRequestView::Language(language)) =>
            match language_selection(media, policy, language) {
                Ok(index) => Ok(
                    ActionView::RemuxOnly { selection: SelectorView::StreamIndex(index) },
                ),
                Err(e) => Err(e),
            },
    }
}

fn find_candidates(
    streams: &Vec<&AudioStream>,
    policy: &CompatibilityPolicy,
    language: &str,
) -> (r: Result<Vec<StreamIndex>, PolicyError>)
    ensures
        match r {
            Ok(found) => candidates(streams.deep_view(), policy@, language@) == Ok::<
                _,
                PolicyErrorView,
            >(found.deep_view()),
            Err(e) => candidates(streams.deep_view(), policy@, language@) == Err::<Seq<u32>, _>(
                e@,
            ),
        },
{
    let ghost all = streams.deep_view();
    let mut out: Vec<StreamIndex> = Vec::new();
    let mut i: usize = 0;
    proof {
        assert(out.deep_view() =~= seq![]);
    }
    while i < streams.len()
        invariant
            all == streams.deep_view(),
            i <= streams@.len(),
            candidates(all.take(i as int), policy@, language@) == Ok::<_, PolicyErrorView>(
                out.deep_view(),
            ),
        decreases streams@.len() - i,
    {
        let stream = streams[i];
        let ghost before = out.deep_view();
        proof {
            assert(all[i as int] == stream@);
            assert(all.take(i + 1).drop_last() =~= all.take(i as int));
            assert(all.take(i + 1).last() == stream@);
        }
        let spoken = match stream.common().metadata().language() {
            Some(tag) => text::same_ignoring_case(tag.as_str(), language),
            None => false,
        };
        if spoken {
            match policy.classify(stream) {
                Ok(Compatibility::Compatible) => {
                    let index = stream.common().index();
                    out.push(index);
                    proof {
                        assert(out.deep_view() =~= before.push(index@));
                    }
                },
                Ok(_) => {},
                Err(e) => {
                    proof {
                        lemma_candidates_fault(all, policy@, language@, i + 1);
                    }
                    return Err(e);
                },
            }
        }
        i = i + 1;
    }
    proof {
        assert(all.take(i as int) =~= all);
    }
    Ok(out)
}

proof fn lemma_candidates_fault(
    streams: Seq<AudioStreamView>,
    policy: PolicyView,
    language: Seq<char>,
    n: int,
)
    requires
        0 <= n <= streams.len(),
        candidates(streams.take(n), policy, language) is Err,
    ensures
        candidates(streams, policy, language) == candidates(streams.take(n), policy, language),
    decreases streams.len(),
{
    if n == streams.len() {
        assert(streams.take(n) =~= streams);
    } else {
        assert(streams.drop_last().take(n) =~= streams.take(n));
        lemma_candidates_fault(streams.drop_last(), policy, language, n);
    }
}

fn show_indices(indices: &Vec<StreamIndex>) -> (r: String)
    ensures
        r@ == text::join(index_texts(indices.deep_view()), ", "@),
{
    let ghost all = index_texts(indices.deep_view());
    let mut parts: Vec<String> = Vec::new();
    let mut i: usize = 0;
    proof {
        assert(parts.deep_view() =~= all.take(0));
    }
    while i < indices.len()
        invariant
            all == index_texts(indices.deep_view()),
            i <= indices@.len(),
            parts.deep_view() == all.take(i as int),
        decreases indices@.len() - i,
    {
        let ghost before = parts.deep_view();
        let part = indices[i].show();
        parts.push(part);
        proof {
            assert(indices.deep_view()[i as int] == indices@[i as int]@);
            assert(parts.deep_view() =~= before.push(part@));
            assert(all.take(i + 1) =~= all.take(i as int).push(all[i as int]));
        }
        i = i + 1;
    }
    proof {
        assert(all.take(i as int) =~= all);
    }
    text::joined(&parts, ", ")
}

fn select_language(media: &MediaInfo, policy: &CompatibilityPolicy, language: &str) -> (r: Result<
    StreamIndex,
    FileFailure,
>)
    ensures
        match r {
            Ok(index) => language_selection(media@, policy@, language@) == Ok::<
                _,
                FileFailureView,
            >(index@),
            Err(e) => language_selection(media@, policy@, language@) == Err::<u32, _>(e@),
        },
{
    let streams = media.audio_streams();
    match find_candidates(&streams, policy, language) {
        Err(e) => Err(FileFailure::new(FailureStage::Selection, e.message())),
        Ok(found) => {
            proof {
                assert(found.deep_view().len() == found@.len());
            }
            if found.len() == 1 {
                proof {
                    assert(found.deep_view()[0] == found@[0]@);
                }
                Ok(found[0])
            } else if found.len() == 0 {
                Err(
                    FileFailure::new(
                        FailureStage::Selection,
                        text::concat3(
                            "no compatible audio stream matches language `",
                            language,
                            "`",
                        ),
                    ),
                )
            } else {
                let mut message = text::concat3(
                    "language `",
                    language,
                    "` is ambiguous; matching stream indices: ",
                );
                text::push_text(&mut message, show_indices(&found).as_str());
                Err(FileFailure::new(FailureStage::Selection, message))
            }
        },
    }
}

/// Chooses the audio, so that only what the planner knows is asked for.
pub fn resolve_action(media: &MediaInfo, policy: &CompatibilityPolicy, request: &ActionRequest) -> (r:
    Result<RequestedAction, FileFailure>)
    ensures
        match r {
            Ok(action) => resolved_action(media@, policy@, request@) == Ok::<_, FileFailureView>(
                action@,
            ),
            Err(e) => resolved_action(media@, policy@, request@) == Err::<ActionView, _>(e@),
        },
{
    match request {
        ActionRequest::Convert => Ok(RequestedAction::Convert),
        ActionRequest::RemuxOnly(selection) => match selection {
            AudioSelectionRequest::FirstCompatible => Ok(
                RequestedAction::RemuxOnly { selection: AudioSelector::FirstCompatible },
            ),
            AudioSelectionRequest::StreamIndex(index) => Ok(
                RequestedAction::RemuxOnly { selection: AudioSelector::StreamIndex(*index) },
            ),
            AudioSelectionRequest::Language(language) => match select_language(
                media,
                policy,
                language.as_str(),
            ) {
                Ok(index) => Ok(
                    RequestedAction::RemuxOnly { selection: AudioSelector::StreamIndex(index) },
                ),
                Err(e) => Err(e),
            },
        },
    }
}

/// The plan for a file, or what became of it without one.
pub open spec fn file_plan(file: FileRequestView, media: MediaInfoView) -> Result<
    JobPlanView,
    FileOutcomeView,
> {
    match resolved_action(media, file.compatibility, file.action) {
        Err(e) => Err(FileOutcomeView::Failed(e)),
        Ok(action) => {
            let policy = PlanningView {
                compatibility: file.compatibility,
                target: file.target,
                output_mode: file.output_mode,
                action,
                output_path: file.output,
            };
            match plan::outcome(media, policy) {
                Ok(PlanOutcomeView::Execute(job)) => Ok(job),
                Ok(PlanOutcomeView::Skip(_)) => Err(
                    FileOutcomeView::Skipped(SkipReason::NothingToDo),
                ),
                Err(e) => Err(
                    outcome_of_error(RuntimeErrorView::Plan(e), FailureStage::Plan),
                ),
            }
        },
    }
}

/// Makes the plan for a probed file.
pub fn plan_file(file: &FileRequest, media: &MediaInfo) -> (r: Result<JobPlan, FileOutcome>)
    ensures
        match r {
            Ok(job) => file_plan(file@, media@) == Ok::<_, FileOutcomeView>(job@),
            Err(o) => file_plan(file@, media@) == Err::<JobPlanView, _>(o@),
        },
{
    let action = match resolve_action(media, file.compatibility(), file.action()) {
        Ok(a) => a,
        Err(e) => {
            return Err(FileOutcome::Failed(e));
        },
    };
    let policy = PlanningPolicy::new(
        file.compatibility().clone(),
        file.target(),
        file.output_mode(),
        action,
        file.output().clone(),
    );
    match application::plan_media(media, &policy) {
        Ok(PlanOutcome::Execute(job)) => Ok(job),
        Ok(PlanOutcome::Skip(_)) => Err(FileOutcome::Skipped(SkipReason::NothingToDo)),
        Err(e) => Err(outcome_from_runtime(e, FailureStage::Plan)),
    }
}

/// What the preparation of a file comes to, given its plan and what is at the output path.
pub open spec fn prepared_as(job: JobPlanView, existing: ExistingView, dry_run: bool) -> PreparedView {
    if dry_run {
        PreparedView::Terminal(FileOutcomeView::Planned(DryRunView { plan: job, existing }))
    } else {
        match existing {
            ExistingView::Absent => PreparedView::Ready(job),
            ExistingView::Valid => PreparedView::Terminal(
                FileOutcomeView::Skipped(SkipReason::ValidExistingOutput),
            ),
            ExistingView::Conflict { mismatches } => PreparedView::Terminal(
                FileOutcomeView::Failed(
                    failure(
                        FailureStage::Conflict,
                        "output already exists and conflicts ("@ + number::decimal(
                            mismatches.len() as int,
                        ) + " mismatch(es))"@,
                    ),
                ),
            ),
        }
    }
}

/// What the preparation of a file comes to, given its plan and what is at the output path.
pub fn finish_preparation(plan: JobPlan, existing: ExistingOutputOutcome, dry_run: bool) -> (r:
    PreparedResult)
    ensures
        r@ == prepared_as(plan@, existing@, dry_run),
{
    if dry_run {
        return PreparedResult::Terminal(FileOutcome::Planned(DryRunReport { plan, existing }));
    }
    match existing {
        ExistingOutputOutcome::Absent => PreparedResult::Ready(plan),
        ExistingOutputOutcome::Valid => PreparedResult::Terminal(
            FileOutcome::Skipped(SkipReason::ValidExistingOutput),
        ),
        ExistingOutputOutcome::Conflict { mismatches } => {
            proof {
                assert(mismatches.deep_view().len() == mismatches@.len());
            }
            PreparedResult::Terminal(
                FileOutcome::Failed(
                    FileFailure::new(
                        FailureStage::Conflict,
                        text::concat3(
                            "output already exists and conflicts (",
                            number::show_usize(mismatches.len()).as_str(),
                            " mismatch(es))",
                        ),
                    ),
                ),
            )
        },
    }
}

/// Nothing is converted over what is at the output path, and nothing at all in a dry run.
pub proof fn law_ready_needs_an_absent_output(
    job: JobPlanView,
    existing: ExistingView,
    dry_run: bool,
)
    ensures
        prepared_as(job, existing, dry_run) is Ready ==> existing is Absent && !dry_run,
{
}

/// An output that was published is recognized: where a later probe of it tells what the probe
/// before its publication told, the same plan is skipped, and nothing is converted again.
pub proof fn law_published_outputs_are_skipped(
    job: JobPlanView,
    cancelled: bool,
    events: Seq<EventView>,
)
    requires
        execution_laws::run(job, cancelled, events).1 matches execution::ActionView::Finish(r)
            && r is Ok,
    ensures
        exists|media: MediaInfoView|
            #[trigger] events.contains(EventView::Probed(Ok(media))) && prepared_as(
                job,
                application::probe_verdict(job, media),
                false,
            ) == PreparedView::Terminal(FileOutcomeView::Skipped(SkipReason::ValidExistingOutput)),
{
    execution_laws::law_success_means_published(job, cancelled, events);
    let media = choose|media: MediaInfoView|
        validate::all_mismatches(job, media).len() == 0 && #[trigger] events.contains(
            EventView::Probed(Ok(media)),
        );
    assert(events.contains(EventView::Probed(Ok(media))));
}

/// A choice by language stands for a compatible stream of the file in that language.
pub proof fn law_language_choice_is_compatible(
    media: MediaInfoView,
    policy: PolicyView,
    language: Seq<char>,
    index: u32,
)
    requires
        language_selection(media, policy, language) == Ok::<_, FileFailureView>(index),
    ensures
        exists|i: int|
            0 <= i < media::audio_of(media.streams).len() && (#[trigger] media::audio_of(
                media.streams,
            )[i]).common.index == index && speaks(media::audio_of(media.streams)[i], language)
                && accepts(policy, media::audio_of(media.streams)[i]),
{
    let streams = media::audio_of(media.streams);
    let found = candidates(streams, policy, language)->Ok_0;
    assert(found[0] == index);
    lemma_candidates(streams, policy, language, 0);
}

proof fn lemma_candidates(
    streams: Seq<AudioStreamView>,
    policy: PolicyView,
    language: Seq<char>,
    k: int,
)
    requires
        candidates(streams, policy, language) is Ok,
        0 <= k < candidates(streams, policy, language)->Ok_0.len(),
    ensures
        exists|i: int|
            0 <= i < streams.len() && (#[trigger] streams[i]).common.index == candidates(
                streams,
                policy,
                language,
            )->Ok_0[k] && speaks(streams[i], language) && accepts(policy, streams[i]),
    decreases streams.len(),
{
    let before = streams.drop_last();
    let earlier = candidates(before, policy, language)->Ok_0;
    if k < earlier.len() {
        lemma_candidates(before, policy, language, k);
        let i = choose|i: int|
            0 <= i < before.len() && (#[trigger] before[i]).common.index == earlier[k] && speaks(
                before[i],
                language,
            ) && accepts(policy, before[i]);
        assert(streams[i] == before[i]);
    } else {
        assert(streams[streams.len() - 1] == streams.last());
    }
}

} // verus!
