//! What holds of the arguments with which a plan is handed to the tool.
use vstd::prelude::*;

use crate::ffmpeg::command;
use crate::ffmpeg::command::ArgumentView;
use crate::number;
use crate::plan::{ExpectedStreamView, JobPlanView, OperationView};
use crate::table;
use crate::target::TargetView;
use crate::text;
use crate::validate;
use crate::validate_laws;

verus! {

/// Whether an option stands among the arguments with a value behind it.
pub open spec fn sets(arguments: Seq<ArgumentView>, option: Seq<char>, value: ArgumentView) -> bool {
    exists|k: int|
        0 <= k < arguments.len() - 1 && #[trigger] arguments[k] == ArgumentView::Text(option)
            && arguments[k + 1] == value
}

/// Whether an option stands among the arguments with a text behind it.
pub open spec fn sets_text(
    arguments: Seq<ArgumentView>,
    option: Seq<char>,
    value: Seq<char>,
) -> bool {
    sets(arguments, option, ArgumentView::Text(value))
}

/// How many of the first `n` expected streams are audio.
pub open spec fn audio_before(expected: Seq<ExpectedStreamView>, n: int) -> nat {
    expected.take(n).filter(|s: ExpectedStreamView| s.kind is Audio).len()
}

proof fn lemma_audio_count(streams: Seq<ExpectedStreamView>)
    ensures
        command::audio_count(streams) == streams.filter(
            |s: ExpectedStreamView| s.kind is Audio,
        ).len(),
    decreases streams.len(),
{
    reveal(Seq::filter);
    if streams.len() > 0 {
        lemma_audio_count(streams.drop_last());
    }
}

/// The tool reads the input of the plan and writes Matroska to the staging file, whose path is the
/// last argument. It copies global metadata and chapters where the plan says so, keeps time stamps
/// as they are, and tells its progress.
pub proof fn law_files_and_container(job: JobPlanView, staging: Seq<u8>)
    ensures
        ({
            let a = command::execution_arguments(job, staging);
            &&& a.last() == ArgumentView::Path(staging)
            &&& sets(a, "-i"@, ArgumentView::Path(job.input))
            &&& sets_text(a, "-f"@, "matroska"@)
            &&& sets_text(a, "-c"@, "copy"@)
            &&& job.copy_global_metadata ==> sets_text(a, "-map_metadata"@, "0"@)
            &&& !job.copy_global_metadata ==> sets_text(a, "-map_metadata"@, "-1"@)
            &&& job.copy_chapters ==> sets_text(a, "-map_chapters"@, "0"@)
            &&& !job.copy_chapters ==> sets_text(a, "-map_chapters"@, "-1"@)
            &&& sets_text(a, "-progress"@, "pipe:1"@)
            &&& sets_text(a, "-stats_period"@, "0.25"@)
            &&& sets_text(a, "-copytb"@, "1"@)
            &&& sets_text(a, "-avoid_negative_ts"@, "disabled"@)
            &&& a.contains(ArgumentView::Text("-hide_banner"@))
            &&& a.contains(ArgumentView::Text("-nostdin"@))
            &&& a.contains(ArgumentView::Text("-nostats"@))
            &&& a.contains(ArgumentView::Text("-y"@))
            &&& a.contains(ArgumentView::Text("-copyts"@))
            &&& a.contains(ArgumentView::Text("-copy_unknown"@))
        }),
{
    let a = command::execution_arguments(job, staging);
    let head = command::head(job);
    let maps = command::choices(job.streams);
    let options = command::options_up_to(
        job.streams,
        job.expected.streams,
        job.streams.len() as int,
    );
    let tail = command::tail(staging);
    assert forall|k: int| 0 <= k < head.len() implies a[k] == head[k] by {}
    assert(a[0] == head[0] && a[1] == head[1] && a[2] == head[2] && a[3] == head[3] && a[4]
        == head[4] && a[5] == head[5] && a[6] == head[6] && a[7] == head[7] && a[8] == head[8]
        && a[9] == head[9] && a[10] == head[10] && a[11] == head[11] && a[12] == head[12] && a[13]
        == head[13] && a[14] == head[14] && a[15] == head[15]);
    let middle = (head + maps).len() as int;
    assert(a[middle] == ArgumentView::Text("-c"@) && a[middle + 1] == ArgumentView::Text("copy"@));
    let from = a.len() - tail.len();
    assert forall|k: int| 0 <= k < tail.len() implies a[from + k] == tail[k] by {}
    assert(a[from] == tail[0] && a[from + 1] == tail[1] && a[from + 2] == tail[2] && a[from + 3]
        == tail[3] && a[from + 4] == tail[4] && a[from + 5] == tail[5]);
}

proof fn lemma_choices(operations: Seq<OperationView>, j: int)
    requires
        0 <= j < operations.len(),
    ensures
        command::choices(operations).len() == 2 * operations.len(),
        command::choices(operations)[2 * j] == ArgumentView::Text("-map"@),
        command::choices(operations)[2 * j + 1] == ArgumentView::Text(
            "0:"@ + number::decimal(operations[j].source() as int),
        ),
    decreases operations.len(),
{
    let rest = operations.drop_last();
    if rest.len() > 0 {
        lemma_choices(
            rest,
            if j < rest.len() {
                j
            } else {
                0
            },
        );
    } else {
        assert(command::choices(rest).len() == 0);
    }
}

/// The output streams are chosen from the input in the order of the plan, each by the index of its
/// source.
pub proof fn law_streams_are_chosen_in_order(job: JobPlanView, staging: Seq<u8>, j: int)
    requires
        0 <= j < job.streams.len(),
    ensures
        ({
            let a = command::execution_arguments(job, staging);
            &&& a.len() > 17 + 2 * j
            &&& a[16 + 2 * j] == ArgumentView::Text("-map"@)
            &&& a[17 + 2 * j] == ArgumentView::Text(
                "0:"@ + number::decimal(job.streams[j].source() as int),
            )
        }),
{
    lemma_choices(job.streams, j);
    let a = command::execution_arguments(job, staging);
    let head = command::head(job);
    let maps = command::choices(job.streams);
    assert(head.len() == 16);
    assert(a[16 + 2 * j] == maps[2 * j]);
    assert(a[17 + 2 * j] == maps[2 * j + 1]);
}

/// The options of one stream stand among the options of all.
proof fn lemma_options(
    operations: Seq<OperationView>,
    expected: Seq<ExpectedStreamView>,
    n: int,
    j: int,
) -> (at: int)
    requires
        0 <= j < n,
    ensures
        ({
            let all = command::options_up_to(operations, expected, n);
            let one = command::stream_options(
                j,
                command::audio_count(expected.take(j)) as int,
                operations[j],
            );
            &&& 0 <= at <= all.len() - one.len()
            &&& forall|k: int| 0 <= k < one.len() ==> all[at + k] == #[trigger] one[k]
        }),
    decreases n,
{
    let before = command::options_up_to(operations, expected, n - 1);
    if j < n - 1 {
        let at = lemma_options(operations, expected, n - 1, j);
        let one = command::stream_options(
            j,
            command::audio_count(expected.take(j)) as int,
            operations[j],
        );
        let all = command::options_up_to(operations, expected, n);
        assert forall|k: int| 0 <= k < one.len() implies all[at + k] == #[trigger] one[k] by {
            assert(before[at + k] == one[k]);
        }
        at
    } else {
        before.len() as int
    }
}

proof fn lemma_stream_options(job: JobPlanView, staging: Seq<u8>, j: int) -> (at: int)
    requires
        0 <= j < job.streams.len(),
    ensures
        ({
            let a = command::execution_arguments(job, staging);
            let one = command::stream_options(
                j,
                audio_before(job.expected.streams, j) as int,
                job.streams[j],
            );
            &&& 0 <= at
            &&& at + one.len() < a.len()
            &&& forall|k: int| 0 <= k < one.len() ==> a[at + k] == #[trigger] one[k]
        }),
{
    let n = job.streams.len() as int;
    let at = lemma_options(job.streams, job.expected.streams, n, j);
    lemma_audio_count(job.expected.streams.take(j));
    let a = command::execution_arguments(job, staging);
    let front = command::head(job) + command::choices(job.streams) + seq![
        command::word("-c"@),
        command::word("copy"@),
    ];
    let options = command::options_up_to(job.streams, job.expected.streams, n);
    let one = command::stream_options(
        j,
        audio_before(job.expected.streams, j) as int,
        job.streams[j],
    );
    assert forall|k: int| 0 <= k < one.len() implies a[front.len() + at + k] == #[trigger] one[k] by {
        assert(options[at + k] == one[k]);
        assert(a[front.len() + (at + k)] == options[at + k]);
    }
    front.len() + at
}

/// Encoded audio is given the encoder of the codec of its target, the bitrate of the target and the
/// planned number of channels, by its place among the audio of the output, and language and title
/// by its place among all streams.
pub proof fn law_encoding_options(job: JobPlanView, staging: Seq<u8>, j: int)
    requires
        0 <= j < job.streams.len(),
        job.streams[j] is EncodeAudio,
    ensures
        ({
            let a = command::execution_arguments(job, staging);
            let place = number::decimal(audio_before(job.expected.streams, j) as int);
            let position = number::decimal(j);
            let target = job.streams[j]->target;
            let metadata = job.streams[j]->metadata;
            &&& target is Ac3 ==> sets_text(a, "-c:a:"@ + place, "ac3"@)
            &&& target is Eac3 ==> sets_text(a, "-c:a:"@ + place, "eac3"@)
            &&& target is Aac ==> sets_text(a, "-c:a:"@ + place, "aac"@)
            &&& sets_text(
                a,
                "-b:a:"@ + place,
                number::decimal(
                    match target {
                        TargetView::Ac3 { bitrate, .. } => bitrate as int,
                        TargetView::Eac3 { bitrate, .. } => bitrate as int,
                        TargetView::Aac { bitrate, .. } => bitrate as int,
                    },
                ),
            )
            &&& sets_text(
                a,
                "-ac:a:"@ + place,
                number::decimal(job.streams[j]->output_channels as int),
            )
            &&& metadata.dom().contains("language"@) ==> sets_text(
                a,
                "-metadata:s:"@ + position,
                "language"@ + "="@ + metadata["language"@],
            )
            &&& metadata.dom().contains("title"@) ==> sets_text(
                a,
                "-metadata:s:"@ + position,
                "title"@ + "="@ + metadata["title"@],
            )
        }),
{
    let at = lemma_stream_options(job, staging, j);
    let a = command::execution_arguments(job, staging);
    let ordinal = audio_before(job.expected.streams, j) as int;
    let one = command::stream_options(j, ordinal, job.streams[j]);
    let encode = command::encode_options(j, ordinal, job.streams[j]);
    let metadata = job.streams[j]->metadata;
    assert forall|k: int| 0 <= k < encode.len() implies one[k] == encode[k] by {}
    assert(a[at] == one[0] && a[at + 1] == one[1] && a[at + 2] == one[2] && a[at + 3] == one[3]
        && a[at + 4] == one[4] && a[at + 5] == one[5]);
    assert(encode[0] == command::word("-c:a:"@ + number::decimal(ordinal)));
    assert(encode[2] == command::word("-b:a:"@ + number::decimal(ordinal)));
    assert(encode[4] == command::word("-ac:a:"@ + number::decimal(ordinal)));
    if metadata.dom().contains("language"@) {
        assert(encode[6] == command::word("-metadata:s:"@ + number::decimal(j)));
        assert(a[at + 6] == one[6] && a[at + 7] == one[7]);
    }
    if metadata.dom().contains("title"@) {
        let k = encode.len() - 2;
        assert(encode[k] == command::word("-metadata:s:"@ + number::decimal(j)));
        assert(a[at + k] == one[k] && a[at + (k + 1)] == one[k + 1]);
    }
}

/// Every output stream is given exactly the disposition flags that are on, joined by `+`, and `0`
/// where none is.
pub proof fn law_disposition_options(job: JobPlanView, staging: Seq<u8>, j: int)
    requires
        0 <= j < job.streams.len(),
        table::is_listed(job.streams[j].dispositions()),
    ensures
        ({
            let a = command::execution_arguments(job, staging);
            let flags = job.streams[j].dispositions();
            let option = "-disposition:"@ + number::decimal(j);
            let none = forall|name: Seq<char>| !validate_laws::is_on(flags, name);
            &&& none ==> sets_text(a, option, "0"@)
            &&& !none ==> exists|names: Seq<Seq<char>>|
                names.len() > 0 && sets_text(a, option, #[trigger] text::join(names, "+"@))
                    && forall|name: Seq<char>| #[trigger]
                    names.contains(name) <==> validate_laws::is_on(flags, name)
        }),
{
    let at = lemma_stream_options(job, staging, j);
    let a = command::execution_arguments(job, staging);
    let ordinal = audio_before(job.expected.streams, j) as int;
    let one = command::stream_options(j, ordinal, job.streams[j]);
    let k = one.len() - 2;
    let flags = job.streams[j].dispositions();
    assert(one[k] == command::word("-disposition:"@ + number::decimal(j)));
    assert(one[k + 1] == command::word(command::disposition_text(flags)));
    assert(a[at + k] == one[k] && a[at + (k + 1)] == one[k + 1]);
    let names = validate::enabled(flags);
    assert forall|name: Seq<char>| #[trigger] names.contains(name) <==> validate_laws::is_on(
        flags,
        name,
    ) by {
        validate_laws::lemma_on(flags, name);
    }
    if names.len() > 0 {
        assert(names.contains(names[0]));
        assert(validate_laws::is_on(flags, names[0]));
    } else {
        assert forall|name: Seq<char>| !validate_laws::is_on(flags, name) by {
            assert(!names.contains(name));
        }
    }
}

/// Nothing is said of the encoding of a copied stream, so that it is copied like all others.
pub proof fn law_copied_streams_have_no_encoder(position: int, ordinal: int, operation: OperationView)
    requires
        operation is Copy,
    ensures
        command::stream_options(position, ordinal, operation).len() == 2,
        command::stream_options(position, ordinal, operation)[0] == ArgumentView::Text(
            "-disposition:"@ + number::decimal(position),
        ),
{
}

/// A plan can be handed to the tool exactly where every output stream is expected and whatever is
/// encoded is expected to be audio.
pub proof fn law_when_plans_are_handed_on(job: JobPlanView)
    ensures
        !command::is_consistent(job) <==> job.streams.len() != job.expected.streams.len() || exists|
            i: int,
        |
            0 <= i < job.streams.len() && (#[trigger] job.streams[i]) is EncodeAudio && !(
            job.expected.streams[i].kind is Audio),
{
}

/// Without streams there are no options for streams: the arguments are those for the files and the
/// container.
pub proof fn law_no_streams_no_options(job: JobPlanView, staging: Seq<u8>)
    requires
        job.streams.len() == 0,
    ensures
        command::options_up_to(job.streams, job.expected.streams, 0) == Seq::<ArgumentView>::empty(),
        command::execution_arguments(job, staging) == command::head(job) + command::choices(
            job.streams,
        ) + seq![ArgumentView::Text("-c"@), ArgumentView::Text("copy"@)] + command::tail(staging),
{
}

} // verus!
