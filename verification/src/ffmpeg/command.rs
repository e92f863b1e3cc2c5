//! The arguments with which the conversion tool is started.
use vstd::prelude::*;
use vstd::string::*;

use crate::media::MediaInfoView;
use crate::model;
use crate::model::Metadata;
use crate::number;
use crate::path;
use crate::path::FilePath;
use crate::plan;
use crate::plan::{
    ExpectedStreamKind, ExpectedStreamView, JobPlan, JobPlanView, OperationView, OutputStreamPlan,
    PlanErrorView, PlanOutcomeView, PlanningView,
};
use crate::plan_laws;
use crate::stream::DispositionsView;
use crate::target::AudioTarget;
use crate::text;
use crate::validate;

verus! {

/// Why a plan cannot be handed to the tool.
#[derive(Debug, Clone, Copy, PartialEq, Eq, Structural)]
#[non_exhaustive]
pub enum ArgumentError {
    /// The plan has an operation that the tool is not used for.
    UnsupportedOperation,
    /// Operations and expectations of the plan do not belong together.
    InconsistentPlan,
    /// The plan has a target that the tool is not used for.
    UnsupportedAudioTarget,
}

impl ArgumentError {
    /// The user-facing description.
    pub open spec fn text(self) -> Seq<char> {
        match self {
            ArgumentError::UnsupportedOperation =>
                "job plan contains an unsupported stream operation"@,
            ArgumentError::InconsistentPlan =>
                "job plan stream operations and expectations are inconsistent"@,
            ArgumentError::UnsupportedAudioTarget =>
                "job plan contains an unsupported audio target"@,
        }
    }

    /// The user-facing description.
    pub fn message(&self) -> (r: String)
        ensures
            r@ == self.text(),
    {
        match self {
            ArgumentError::UnsupportedOperation =>
                "job plan contains an unsupported stream operation".to_owned(),
            ArgumentError::InconsistentPlan =>
                "job plan stream operations and expectations are inconsistent".to_owned(),
            ArgumentError::UnsupportedAudioTarget =>
                "job plan contains an unsupported audio target".to_owned(),
        }
    }
}

/// One argument of the tool. Two arguments are equal where the tool is given the same bytes.
#[derive(Debug, Eq)]
pub enum Argument {
    /// A text.
    Text(String),
    /// A path, whatever its bytes.
    Path(FilePath),
}

/// One argument of the tool.
pub enum ArgumentView {
    /// A text.
    Text(Seq<char>),
    /// A path, whatever its bytes.
    Path(Seq<u8>),
}

impl View for Argument {
    type V = ArgumentView;

    open spec fn view(&self) -> ArgumentView {
        match self {
            Argument::Text(value) => ArgumentView::Text(value@),
            Argument::Path(value) => ArgumentView::Path(value@),
        }
    }
}

impl DeepView for Argument {
    type V = ArgumentView;

    open spec fn deep_view(&self) -> ArgumentView {
        self@
    }
}

impl ArgumentView {
    /// The bytes that the tool is given.
    pub open spec fn bytes(self) -> Seq<u8> {
        match self {
            ArgumentView::Text(value) => vstd::utf8::encode_utf8(value),
            ArgumentView::Path(value) => value,
        }
    }
}

impl Argument {
    /// The bytes that the tool is given.
    pub fn to_bytes(&self) -> (r: Vec<u8>)
        ensures
            r@ == self@.bytes(),
    {
        match self {
            Argument::Text(value) => value.as_str().as_bytes_vec(),
            Argument::Path(value) => path::slice_bytes(
                value.as_bytes(),
                0,
                value.as_bytes().len(),
            ),
        }
    }
}

impl PartialEq for Argument {
    fn eq(&self, other: &Argument) -> (r: bool) {
        path::same_bytes(&self.to_bytes(), &other.to_bytes())
    }
}

impl vstd::std_specs::cmp::PartialEqSpecImpl for Argument {
    open spec fn obeys_eq_spec() -> bool {
        true
    }

    open spec fn eq_spec(&self, other: &Argument) -> bool {
        self@.bytes() == other@.bytes()
    }
}

impl Clone for Argument {
    fn clone(&self) -> (r: Self)
        ensures
            r@ == self@,
    {
        match self {
            Argument::Text(value) => Argument::Text(value.clone()),
            Argument::Path(value) => Argument::Path(value.clone()),
        }
    }
}

/// The arguments of the tool.
#[derive(Debug, PartialEq, Eq)]
pub struct ArgumentBuild {
    arguments: Vec<Argument>,
    warnings: Vec<String>,
}

/// The arguments of the tool.
pub struct ArgumentBuildView {
    /// The arguments in order.
    pub arguments: Seq<ArgumentView>,
    /// What there is to know.
    pub warnings: Seq<Seq<char>>,
}

impl View for ArgumentBuild {
    type V = ArgumentBuildView;

    closed spec fn view(&self) -> ArgumentBuildView {
        ArgumentBuildView {
            arguments: self.arguments.deep_view(),
            warnings: self.warnings.deep_view(),
        }
    }
}

impl DeepView for ArgumentBuild {
    type V = ArgumentBuildView;

    open spec fn deep_view(&self) -> ArgumentBuildView {
        self@
    }
}

impl Clone for ArgumentBuild {
    fn clone(&self) -> (r: Self)
        ensures
            r@ == self@,
    {
        let r = ArgumentBuild {
            arguments: self.arguments.clone(),
            warnings: text::copy_texts(&self.warnings),
        };
        proof {
            assert(r.arguments.deep_view() =~= self.arguments.deep_view());
        }
        r
    }
}

impl ArgumentBuild {
    /// The arguments in order.
    pub fn arguments(&self) -> (r: &Vec<Argument>)
        ensures
            r.deep_view() == self@.arguments,
    {
        &self.arguments
    }

    /// What there is to know.
    pub fn warnings(&self) -> (r: &Vec<String>)
        ensures
            r.deep_view() == self@.warnings,
    {
        &self.warnings
    }
}

impl ArgumentBuild {
    /// The arguments and what there is to know.
    pub fn into_parts(self) -> (r: (Vec<Argument>, Vec<String>))
        ensures
            r.0.deep_view() == self@.arguments,
            r.1.deep_view() == self@.warnings,
    {
        (self.arguments, self.warnings)
    }
}

/// A text argument.
pub open spec fn word(value: Seq<char>) -> ArgumentView {
    ArgumentView::Text(value)
}

/// The value that switches copying of something on or off.
pub open spec fn map_value(copied: bool) -> Seq<char> {
    if copied {
        "0"@
    } else {
        "-1"@
    }
}

/// What stands before the streams.
pub open spec fn head(job: JobPlanView) -> Seq<ArgumentView> {
    seq![
        word("-hide_banner"@),
        word("-nostdin"@),
        word("-y"@),
        word("-progress"@),
        word("pipe:1"@),
        word("-stats_period"@),
        word("0.25"@),
        word("-nostats"@),
        word("-copyts"@),
        word("-i"@),
        ArgumentView::Path(job.input),
        word("-map_metadata"@),
        word(map_value(job.copy_global_metadata)),
        word("-map_chapters"@),
        word(map_value(job.copy_chapters)),
        word("-copy_unknown"@),
    ]
}

/// The choice of one source stream.
pub open spec fn choice(operation: OperationView) -> Seq<ArgumentView> {
    seq![word("-map"@), word("0:"@ + number::decimal(operation.source() as int))]
}

/// The choice of the source streams.
pub open spec fn choices(operations: Seq<OperationView>) -> Seq<ArgumentView>
    decreases operations.len(),
{
    if operations.len() == 0 {
        seq![]
    } else {
        choices(operations.drop_last()) + choice(operations.last())
    }
}

/// How many of the streams are audio.
pub open spec fn audio_count(streams: Seq<ExpectedStreamView>) -> nat
    decreases streams.len(),
{
    if streams.len() == 0 {
        0
    } else {
        audio_count(streams.drop_last()) + if streams.last().kind is Audio {
            1nat
        } else {
            0
        }
    }
}

/// A metadata entry of an output stream, where there is one.
pub open spec fn metadata_option(
    position: int,
    key: Seq<char>,
    value: Option<Seq<char>>,
) -> Seq<ArgumentView> {
    match value {
        Some(v) => seq![
            word("-metadata:s:"@ + number::decimal(position)),
            word(key + "="@ + v),
        ],
        None => seq![],
    }
}

/// How one stream is encoded.
pub open spec fn encode_options(
    position: int,
    ordinal: int,
    operation: OperationView,
) -> Seq<ArgumentView> {
    match operation {
        OperationView::Copy { .. } => seq![],
        OperationView::EncodeAudio { target, output_channels, metadata, .. } => seq![
            word("-c:a:"@ + number::decimal(ordinal)),
            word(target.encoder()),
            word("-b:a:"@ + number::decimal(ordinal)),
            word(number::decimal(target.bitrate() as int)),
            word("-ac:a:"@ + number::decimal(ordinal)),
            word(number::decimal(output_channels as int)),
        ] + metadata_option(position, "language"@, model::lookup(metadata, "language"@))
            + metadata_option(position, "title"@, model::lookup(metadata, "title"@)),
    }
}

/// The flags of an output stream as the tool takes them.
pub open spec fn disposition_text(flags: DispositionsView) -> Seq<char> {
    if validate::enabled(flags).len() == 0 {
        "0"@
    } else {
        text::join(validate::enabled(flags), "+"@)
    }
}

/// The options of one output stream.
pub open spec fn stream_options(
    position: int,
    ordinal: int,
    operation: OperationView,
) -> Seq<ArgumentView> {
    encode_options(position, ordinal, operation) + seq![
        word("-disposition:"@ + number::decimal(position)),
        word(disposition_text(operation.dispositions())),
    ]
}

/// The options of the first `n` output streams.
pub open spec fn options_up_to(
    operations: Seq<OperationView>,
    expected: Seq<ExpectedStreamView>,
    n: int,
) -> Seq<ArgumentView>
    decreases n,
{
    if n <= 0 {
        seq![]
    } else {
        options_up_to(operations, expected, n - 1) + stream_options(
            n - 1,
            audio_count(expected.take(n - 1)) as int,
            operations[n - 1],
        )
    }
}

/// What stands behind the streams.
pub open spec fn tail(staging: Seq<u8>) -> Seq<ArgumentView> {
    seq![
        word("-copytb"@),
        word("1"@),
        word("-avoid_negative_ts"@),
        word("disabled"@),
        word("-f"@),
        word("matroska"@),
        ArgumentView::Path(staging),
    ]
}

/// The arguments for a plan.
pub open spec fn execution_arguments(job: JobPlanView, staging: Seq<u8>) -> Seq<ArgumentView> {
    head(job) + choices(job.streams) + seq![word("-c"@), word("copy"@)] + options_up_to(
        job.streams,
        job.expected.streams,
        job.streams.len() as int,
    ) + tail(staging)
}

/// Whether the operations and expectations of a plan belong together: there are as many of each,
/// and only audio is encoded.
pub open spec fn is_consistent(job: JobPlanView) -> bool {
    &&& job.streams.len() == job.expected.streams.len()
    &&& forall|i: int|
        0 <= i < job.streams.len() && (#[trigger] job.streams[i]) is EncodeAudio
            ==> job.expected.streams[i].kind is Audio
}

fn push_text(arguments: &mut Vec<Argument>, value: String)
    ensures
        final(arguments).deep_view() == old(arguments).deep_view().push(word(value@)),
{
    let ghost before = arguments.deep_view();
    arguments.push(Argument::Text(value));
    proof {
        assert(arguments.deep_view() =~= before.push(word(value@)));
    }
}

fn push_word(arguments: &mut Vec<Argument>, value: &str)
    ensures
        final(arguments).deep_view() == old(arguments).deep_view().push(word(value@)),
{
    push_text(arguments, value.to_owned());
}

fn push_path(arguments: &mut Vec<Argument>, value: &FilePath)
    ensures
        final(arguments).deep_view() == old(arguments).deep_view().push(ArgumentView::Path(value@)),
{
    let ghost before = arguments.deep_view();
    arguments.push(Argument::Path(value.clone()));
    proof {
        assert(arguments.deep_view() =~= before.push(ArgumentView::Path(value@)));
    }
}

fn push_pair(arguments: &mut Vec<Argument>, option: &str, ordinal: usize, value: String)
    ensures
        final(arguments).deep_view() == old(arguments).deep_view() + seq![
            word(option@ + number::decimal(ordinal as int)),
            word(value@),
        ],
{
    let ghost before = arguments.deep_view();
    push_text(arguments, text::concat2(option, number::show_usize(ordinal).as_str()));
    push_text(arguments, value);
    proof {
        assert(arguments.deep_view() =~= before + seq![
            word(option@ + number::decimal(ordinal as int)),
            word(value@),
        ]);
    }
}

fn disposition_value(operation: &OutputStreamPlan) -> (r: String)
    ensures
        r@ == disposition_text(operation@.dispositions()),
{
    let names = validate::enabled_dispositions(operation.dispositions());
    proof {
        assert(names.deep_view().len() == names@.len());
    }
    if names.is_empty() {
        "0".to_owned()
    } else {
        text::joined(&names, "+")
    }
}

fn encoder_and_bitrate(target: &AudioTarget) -> (r: (&'static str, u64))
    ensures
        r.0@ == target@.encoder(),
        r.1 == target@.bitrate(),
{
    match target {
        AudioTarget::Ac3 { bitrate, .. } => ("ac3", bitrate.get()),
        AudioTarget::Eac3 { bitrate, .. } => ("eac3", bitrate.get()),
        AudioTarget::Aac { bitrate, .. } => ("aac", bitrate.get()),
    }
}

fn push_metadata(arguments: &mut Vec<Argument>, position: usize, key: &str, metadata: &Metadata)
    ensures
        final(arguments).deep_view() == old(arguments).deep_view() + metadata_option(
            position as int,
            key@,
            model::lookup(metadata@, key@),
        ),
{
    let ghost before = arguments.deep_view();
    match metadata.get(key) {
        Some(value) => push_pair(
            arguments,
            "-metadata:s:",
            position,
            text::concat3(key, "=", value),
        ),
        None => {},
    }
    proof {
        assert(arguments.deep_view() =~= before + metadata_option(
            position as int,
            key@,
            model::lookup(metadata@, key@),
        ));
    }
}

fn push_stream(
    arguments: &mut Vec<Argument>,
    position: usize,
    ordinal: usize,
    operation: &OutputStreamPlan,
)
    ensures
        final(arguments).deep_view() == old(arguments).deep_view() + stream_options(
            position as int,
            ordinal as int,
            operation@,
        ),
{
    let ghost before = arguments.deep_view();
    match operation {
        OutputStreamPlan::Copy { .. } => {},
        OutputStreamPlan::EncodeAudio { target, output_channels, metadata, .. } => {
            let (encoder, bitrate) = encoder_and_bitrate(target);
            push_pair(arguments, "-c:a:", ordinal, encoder.to_owned());
            push_pair(arguments, "-b:a:", ordinal, number::show_u64(bitrate));
            push_pair(arguments, "-ac:a:", ordinal, output_channels.show());
            push_metadata(arguments, position, "language", metadata.metadata());
            push_metadata(arguments, position, "title", metadata.metadata());
        },
    }
    proof {
        assert(arguments.deep_view() =~= before + encode_options(
            position as int,
            ordinal as int,
            operation@,
        ));
    }
    push_pair(arguments, "-disposition:", position, disposition_value(operation));
    proof {
        assert(arguments.deep_view() =~= before + stream_options(
            position as int,
            ordinal as int,
            operation@,
        ));
    }
}

fn push_head(arguments: &mut Vec<Argument>, plan: &JobPlan)
    ensures
        final(arguments).deep_view() == old(arguments).deep_view() + head(plan@),
{
    let ghost before = arguments.deep_view();
    push_word(arguments, "-hide_banner");
    push_word(arguments, "-nostdin");
    push_word(arguments, "-y");
    push_word(arguments, "-progress");
    push_word(arguments, "pipe:1");
    push_word(arguments, "-stats_period");
    push_word(arguments, "0.25");
    push_word(arguments, "-nostats");
    push_word(arguments, "-copyts");
    push_word(arguments, "-i");
    push_path(arguments, plan.input());
    push_word(arguments, "-map_metadata");
    push_word(
        arguments,
        if plan.copy_global_metadata() {
            "0"
        } else {
            "-1"
        },
    );
    push_word(arguments, "-map_chapters");
    push_word(
        arguments,
        if plan.copy_chapters() {
            "0"
        } else {
            "-1"
        },
    );
    push_word(arguments, "-copy_unknown");
    proof {
        assert(arguments.deep_view() =~= before + head(plan@));
    }
}

fn push_tail(arguments: &mut Vec<Argument>, staging_path: &FilePath)
    ensures
        final(arguments).deep_view() == old(arguments).deep_view() + tail(staging_path@),
{
    let ghost before = arguments.deep_view();
    push_word(arguments, "-copytb");
    push_word(arguments, "1");
    push_word(arguments, "-avoid_negative_ts");
    push_word(arguments, "disabled");
    push_word(arguments, "-f");
    push_word(arguments, "matroska");
    push_path(arguments, staging_path);
    proof {
        assert(arguments.deep_view() =~= before + tail(staging_path@));
    }
}

fn push_choices(arguments: &mut Vec<Argument>, operations: &Vec<OutputStreamPlan>)
    ensures
        final(arguments).deep_view() == old(arguments).deep_view() + choices(
            operations.deep_view(),
        ),
{
    let ghost before = arguments.deep_view();
    let ghost all = operations.deep_view();
    let mut i: usize = 0;
    proof {
        assert(before + choices(all.take(0)) =~= before);
    }
    while i < operations.len()
        invariant
            all == operations.deep_view(),
            i <= operations@.len(),
            arguments.deep_view() == before + choices(all.take(i as int)),
        decreases operations@.len() - i,
    {
        let ghost so_far = arguments.deep_view();
        push_word(arguments, "-map");
        push_text(
            arguments,
            text::concat2("0:", number::show_u64(operations[i].source().get() as u64).as_str()),
        );
        proof {
            assert(all[i as int] == operations@[i as int]@);
            assert(all.take(i + 1).drop_last() =~= all.take(i as int));
            let step = choice(all[i as int]);
            assert(arguments.deep_view() =~= so_far + step);
            assert(so_far + step =~= before + (choices(all.take(i as int)) + step));
        }
        i = i + 1;
    }
    proof {
        assert(all.take(i as int) =~= all);
    }
}

proof fn lemma_audio_count(streams: Seq<ExpectedStreamView>)
    ensures
        audio_count(streams) <= streams.len(),
    decreases streams.len(),
{
    if streams.len() > 0 {
        lemma_audio_count(streams.drop_last());
    }
}

/// Turns a plan into the arguments of the tool. It fails exactly where the plan is not consistent.
pub fn build_execution_arguments(plan: &JobPlan, staging_path: &FilePath) -> (r: Result<
    ArgumentBuild,
    ArgumentError,
>)
    ensures
        match r {
            Ok(build) => is_consistent(plan@) && build@.arguments == execution_arguments(
                plan@,
                staging_path@,
            ) && build@.warnings == Seq::<Seq<char>>::empty(),
            Err(error) => !is_consistent(plan@) && error == ArgumentError::InconsistentPlan,
        },
{
    let operations = plan.streams();
    let expected = plan.expected().streams();
    let ghost o = operations.deep_view();
    let ghost e = expected.deep_view();
    proof {
        assert(o.len() == operations@.len());
        assert(e.len() == expected@.len());
    }
    if operations.len() != expected.len() {
        return Err(ArgumentError::InconsistentPlan);
    }
    let mut arguments: Vec<Argument> = Vec::new();
    proof {
        assert(arguments.deep_view() =~= seq![]);
    }
    push_head(&mut arguments, plan);
    push_choices(&mut arguments, operations);
    push_word(&mut arguments, "-c");
    push_word(&mut arguments, "copy");
    let ghost before = arguments.deep_view();
    let mut audio_ordinal: usize = 0;
    let mut i: usize = 0;
    proof {
        assert(before =~= head(plan@) + choices(o) + seq![word("-c"@), word("copy"@)]);
        assert(before + options_up_to(o, e, 0) =~= before);
    }
    while i < operations.len()
        invariant
            o == plan@.streams,
            e == plan@.expected.streams,
            o == operations.deep_view(),
            e == expected.deep_view(),
            i <= operations@.len(),
            operations@.len() == expected@.len(),
            audio_ordinal == audio_count(e.take(i as int)),
            arguments.deep_view() == before + options_up_to(o, e, i as int),
            forall|j: int|
                0 <= j < i && (#[trigger] o[j]) is EncodeAudio ==> e[j].kind is Audio,
        decreases operations@.len() - i,
    {
        let operation = &operations[i];
        let is_audio = match expected[i].kind() {
            ExpectedStreamKind::Audio => true,
            _ => false,
        };
        proof {
            assert(o[i as int] == operation@);
            assert(e[i as int] == expected@[i as int]@);
            assert(is_audio == (e[i as int].kind is Audio));
        }
        if operation.is_encode() && !is_audio {
            return Err(ArgumentError::InconsistentPlan);
        }
        push_stream(&mut arguments, i, audio_ordinal, operation);
        proof {
            let step = stream_options(i as int, audio_ordinal as int, o[i as int]);
            assert(arguments.deep_view() =~= before + (options_up_to(o, e, i as int) + step));
            assert(e.take(i + 1).drop_last() =~= e.take(i as int));
            lemma_audio_count(e.take(i as int));
        }
        if is_audio {
            audio_ordinal = audio_ordinal + 1;
        }
        i = i + 1;
    }
    push_tail(&mut arguments, staging_path);
    let warnings: Vec<String> = Vec::new();
    proof {
        assert(warnings.deep_view() =~= Seq::<Seq<char>>::empty());
        assert(arguments.deep_view() =~= execution_arguments(plan@, staging_path@));
    }
    Ok(ArgumentBuild { arguments, warnings })
}

/// Every plan that was built from a file can be handed to the tool.
pub proof fn law_built_plans_have_arguments(
    media: MediaInfoView,
    policy: PlanningView,
    job: JobPlanView,
)
    requires
        plan::outcome(media, policy) == Ok::<PlanOutcomeView, PlanErrorView>(
            PlanOutcomeView::Execute(job),
        ),
    ensures
        is_consistent(job),
{
    plan_laws::law_expectations_follow_operations(media, policy, job);
    assert forall|i: int|
        0 <= i < job.streams.len() && (#[trigger] job.streams[i]) is EncodeAudio implies
        job.expected.streams[i].kind is Audio by {
    }
}

proof fn lemma_options_stay(
    operations: Seq<OperationView>,
    expected: Seq<ExpectedStreamView>,
    i: int,
    n: int,
) -> (k: int)
    requires
        0 <= i < n,
    ensures
        0 <= k,
        k + 1 < options_up_to(operations, expected, n).len(),
        options_up_to(operations, expected, n)[k] == word("-disposition:"@ + number::decimal(i)),
        options_up_to(operations, expected, n)[k + 1] == word(
            disposition_text(operations[i].dispositions()),
        ),
    decreases n,
{
    let before = options_up_to(operations, expected, n - 1);
    let step = stream_options(
        n - 1,
        audio_count(expected.take(n - 1)) as int,
        operations[n - 1],
    );
    assert(options_up_to(operations, expected, n) == before + step);
    if i == n - 1 {
        let k = before.len() + step.len() - 2;
        k
    } else {
        lemma_options_stay(operations, expected, i, n - 1)
    }
}

/// Every output stream gets its flags set explicitly, to what the plan says.
pub proof fn law_every_stream_has_its_flags_set(job: JobPlanView, staging: Seq<u8>, i: int) -> (k: int)
    requires
        0 <= i < job.streams.len(),
    ensures
        0 <= k,
        k + 1 < execution_arguments(job, staging).len(),
        execution_arguments(job, staging)[k] == word("-disposition:"@ + number::decimal(i)),
        execution_arguments(job, staging)[k + 1] == word(
            disposition_text(job.streams[i].dispositions()),
        ),
{
    let front = head(job) + choices(job.streams) + seq![word("-c"@), word("copy"@)];
    let n = job.streams.len() as int;
    let options = options_up_to(job.streams, job.expected.streams, n);
    let k = lemma_options_stay(job.streams, job.expected.streams, i, n);
    assert(execution_arguments(job, staging) == front + options + tail(staging));
    assert((front + options)[front.len() + k] == options[k]);
    assert((front + options)[front.len() + k + 1] == options[k + 1]);
    front.len() + k
}

/// The tool reads the input of the plan and writes to the staging path and nowhere else: the only
/// path arguments are those two.
pub proof fn law_only_input_and_staging_are_named(job: JobPlanView, staging: Seq<u8>, k: int)
    requires
        0 <= k < execution_arguments(job, staging).len(),
        execution_arguments(job, staging)[k] is Path,
    ensures
        execution_arguments(job, staging)[k] == ArgumentView::Path(job.input)
            || execution_arguments(job, staging)[k] == ArgumentView::Path(staging),
{
    let n = job.streams.len() as int;
    let options = options_up_to(job.streams, job.expected.streams, n);
    lemma_choices_are_words(job.streams);
    lemma_options_are_words(job.streams, job.expected.streams, n);
    let front = head(job) + choices(job.streams);
    let middle = front + seq![word("-c"@), word("copy"@)];
    let all = execution_arguments(job, staging);
    assert(all == middle + options + tail(staging));
    if k < head(job).len() {
        assert(all[k] == head(job)[k]);
    } else if k < front.len() {
        assert(all[k] == choices(job.streams)[k - head(job).len()]);
    } else if k < middle.len() {
    } else if k < (middle + options).len() {
        assert(all[k] == options[k - middle.len()]);
    } else {
        assert(all[k] == tail(staging)[k - (middle + options).len()]);
    }
}

proof fn lemma_choices_are_words(operations: Seq<OperationView>)
    ensures
        forall|k: int| 0 <= k < choices(operations).len() ==> (#[trigger] choices(operations)[k])
            is Text,
    decreases operations.len(),
{
    if operations.len() > 0 {
        lemma_choices_are_words(operations.drop_last());
    }
}

proof fn lemma_options_are_words(
    operations: Seq<OperationView>,
    expected: Seq<ExpectedStreamView>,
    n: int,
)
    ensures
        forall|k: int|
            0 <= k < options_up_to(operations, expected, n).len() ==> (#[trigger] options_up_to(
                operations,
                expected,
                n,
            )[k]) is Text,
    decreases n,
{
    if n > 0 {
        lemma_options_are_words(operations, expected, n - 1);
    }
}

} // verus!
