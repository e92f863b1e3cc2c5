//! What holds of the preparation of a file.
use vstd::prelude::*;
use vstd::string::*;
use vstd::utf8::*;

use crate::backend::{IoErrorKind, IoErrorView};
use crate::execution::EntryFacts;
use crate::media;
use crate::media::MediaInfoView;
use crate::plan;
use crate::plan::{
    ActionView, JobPlanView, PlanErrorView, PlanOutcomeView, PlanningView, SelectorView,
};
use crate::policy::{CompatibilityView, PolicyView};
use crate::runtime::application;
use crate::runtime::application::ExistingView;
use crate::runtime::error;
use crate::runtime::error::RuntimeErrorView;
use crate::runtime::prepare;
use crate::runtime::prepare::{
    ActionRequestView, CancellationReason, FailureStage, FileFailureView, FileOutcomeView,
    FileRequestView, PreparedView, SelectionRequestView, SkipReason,
};
use crate::stream::{AudioStreamView, StreamInfoView};
use crate::text;
use crate::text_laws;
use crate::validate;
use crate::validate_laws;

verus! {

/// A program that worked on one file ends with 4 where the input could not be inspected, with 5 where
/// no audio could be chosen or no plan be made, and with 6 where the work itself failed.
pub proof fn law_exit_codes(stage: FailureStage)
    ensures
        stage is Probe <==> stage.code() == 4,
        stage is Selection || stage is Plan <==> stage.code() == 5,
        stage is Conflict || stage is Execute || stage is Internal <==> stage.code() == 6,
{
}

/// The audio streams of a file are those of its streams that are audio, in their order.
pub proof fn law_audio_streams(streams: Seq<StreamInfoView>, next: StreamInfoView)
    ensures
        media::audio_of(Seq::<StreamInfoView>::empty()).len() == 0,
        next matches StreamInfoView::Audio(audio) ==> media::audio_of(streams.push(next))
            == media::audio_of(streams).push(audio),
        !(next is Audio) ==> media::audio_of(streams.push(next)) == media::audio_of(streams),
{
    assert(streams.push(next).drop_last() =~= streams);
}

/// Whether audio is tagged with a language, in any ASCII case, with white space around the tag or
/// not; a blank tag and one with a NUL character count for none.
pub open spec fn tagged(stream: AudioStreamView, language: Seq<char>) -> bool {
    let metadata = stream.common.metadata;
    metadata.dom().contains("language"@) && {
        let tag = text::trim(metadata["language"@]);
        tag.len() > 0 && !tag.contains('\0') && validate_laws::same_word(tag, language)
    }
}

/// Whether audio is tagged with a language and the device accepts it.
pub open spec fn suits(stream: AudioStreamView, policy: PolicyView, language: Seq<char>) -> bool {
    tagged(stream, language) && (policy.classify(stream) matches Ok(CompatibilityView::Compatible))
}

proof fn lemma_tagged(stream: AudioStreamView, language: Seq<char>)
    ensures
        prepare::speaks(stream, language) <==> tagged(stream, language),
{
    let metadata = stream.common.metadata;
    if metadata.dom().contains("language"@) {
        let tag = text::trim(metadata["language"@]);
        text_laws::law_trimmed(metadata["language"@]);
        validate_laws::lemma_same_word(tag, language);
    }
}

/// The candidates are the audio that suits: none where none does, one where exactly one does.
proof fn lemma_suitable(streams: Seq<AudioStreamView>, policy: PolicyView, language: Seq<char>)
    ensures
        prepare::candidates(streams, policy, language) is Ok <==> forall|i: int|
            0 <= i < streams.len() && tagged(#[trigger] streams[i], language) ==> policy.classify(
                streams[i],
            ) is Ok,
        prepare::candidates(streams, policy, language) matches Ok(found) ==> {
            &&& found.len() == 0 <==> forall|i: int|
                0 <= i < streams.len() ==> !suits(#[trigger] streams[i], policy, language)
            &&& found.len() == 1 ==> exists|i: int|
                0 <= i < streams.len() && suits(#[trigger] streams[i], policy, language)
                    && streams[i].common.index == found[0] && forall|j: int|
                    0 <= j < streams.len() && suits(#[trigger] streams[j], policy, language)
                        ==> j == i
            &&& found.len() > 1 ==> exists|i: int, j: int|
                0 <= i < j < streams.len() && suits(#[trigger] streams[i], policy, language)
                    && suits(#[trigger] streams[j], policy, language)
        },
    decreases streams.len(),
{
    if streams.len() > 0 {
        let rest = streams.drop_last();
        let last = streams.len() - 1;
        lemma_suitable(rest, policy, language);
        lemma_tagged(streams.last(), language);
        assert(streams[last] == streams.last());
        assert forall|i: int| 0 <= i < last implies rest[i] == #[trigger] streams[i] by {}
        let earlier = prepare::candidates(rest, policy, language);
        let all = prepare::candidates(streams, policy, language);
        if earlier is Err {
            let i = choose|i: int|
                0 <= i < rest.len() && tagged(#[trigger] rest[i], language) && !(policy.classify(
                    rest[i],
                ) is Ok);
            assert(tagged(streams[i], language));
        } else if all is Ok {
            let before = earlier->Ok_0;
            let found = all->Ok_0;
            assert forall|i: int| 0 <= i < streams.len() && tagged(
                #[trigger] streams[i],
                language,
            ) implies policy.classify(streams[i]) is Ok by {
                if i < last {
                    assert(tagged(rest[i], language));
                }
            }
            if before.len() == 0 {
                assert forall|i: int| 0 <= i < last implies !suits(
                    #[trigger] streams[i],
                    policy,
                    language,
                ) by {
                    assert(!suits(rest[i], policy, language));
                }
                if found.len() == 1 {
                    assert(suits(streams[last], policy, language));
                    assert(found[0] == streams[last].common.index);
                }
            } else if before.len() == 1 {
                let i = choose|i: int|
                    0 <= i < rest.len() && suits(#[trigger] rest[i], policy, language)
                        && rest[i].common.index == before[0] && forall|j: int|
                        0 <= j < rest.len() && suits(#[trigger] rest[j], policy, language)
                            ==> j == i;
                assert(suits(streams[i], policy, language));
                if found.len() == 1 {
                    assert forall|j: int| 0 <= j < streams.len() && suits(
                        #[trigger] streams[j],
                        policy,
                        language,
                    ) implies j == i by {
                        if j < last {
                            assert(suits(rest[j], policy, language));
                        }
                    }
                } else {
                    assert(suits(streams[last], policy, language));
                }
            } else {
                let (i, j) = choose|i: int, j: int|
                    0 <= i < j < rest.len() && suits(#[trigger] rest[i], policy, language)
                        && suits(#[trigger] rest[j], policy, language);
                assert(suits(streams[i], policy, language) && suits(streams[j], policy, language));
            }
        } else {
            assert(tagged(streams[last], language));
        }
    }
}

/// A language stands for the one stream that is tagged with it and accepted. Where there is none, or
/// more than one, or the policy cannot tell of a tagged one, nothing is chosen, and the failure is
/// one of the selection.
pub proof fn law_language_selection(media: MediaInfoView, policy: PolicyView, language: Seq<char>)
    ensures
        ({
            let streams = media::audio_of(media.streams);
            let r = prepare::language_selection(media, policy, language);
            let told = forall|i: int|
                0 <= i < streams.len() && tagged(#[trigger] streams[i], language)
                    ==> policy.classify(streams[i]) is Ok;
            let one = exists|i: int|
                0 <= i < streams.len() && suits(#[trigger] streams[i], policy, language) && forall|
                    j: int,
                |
                    0 <= j < streams.len() && suits(#[trigger] streams[j], policy, language)
                        ==> j == i;
            &&& r is Ok <==> told && one
            &&& r matches Ok(index) ==> exists|i: int|
                0 <= i < streams.len() && suits(#[trigger] streams[i], policy, language)
                    && streams[i].common.index == index
            &&& r matches Err(f) ==> f.stage == FailureStage::Selection
        }),
{
    let streams = media::audio_of(media.streams);
    lemma_suitable(streams, policy, language);
    if prepare::candidates(streams, policy, language) is Ok {
        let found = prepare::candidates(streams, policy, language)->Ok_0;
        if found.len() > 1 {
            let (i, j) = choose|i: int, j: int|
                0 <= i < j < streams.len() && suits(#[trigger] streams[i], policy, language)
                    && suits(#[trigger] streams[j], policy, language);
            assert(suits(streams[i], policy, language) && suits(streams[j], policy, language));
        }
    }
}

/// What is asked for is what is planned: a conversion, or a remux with the first accepted audio, the
/// audio of an index, or that of a language.
pub proof fn law_requested_actions(
    media: MediaInfoView,
    policy: PolicyView,
    index: u32,
    language: Seq<char>,
)
    ensures
        prepare::resolved_action(media, policy, ActionRequestView::Convert) == Ok::<
            ActionView,
            FileFailureView,
        >(ActionView::Convert),
        prepare::resolved_action(
            media,
            policy,
            ActionRequestView::RemuxOnly(SelectionRequestView::FirstCompatible),
        ) == Ok::<ActionView, FileFailureView>(
            ActionView::RemuxOnly { selection: SelectorView::FirstCompatible },
        ),
        prepare::resolved_action(
            media,
            policy,
            ActionRequestView::RemuxOnly(SelectionRequestView::StreamIndex(index)),
        ) == Ok::<ActionView, FileFailureView>(
            ActionView::RemuxOnly { selection: SelectorView::StreamIndex(index) },
        ),
        prepare::language_selection(media, policy, language) matches Ok(found)
            ==> prepare::resolved_action(
            media,
            policy,
            ActionRequestView::RemuxOnly(SelectionRequestView::Language(language)),
        ) == Ok::<ActionView, FileFailureView>(
            ActionView::RemuxOnly { selection: SelectorView::StreamIndex(found) },
        ),
{
}

/// A file is planned for with everything that its request says, and nothing else. A file with nothing
/// to do is skipped, and what speaks against a plan is a failure of the planning.
pub proof fn law_files_are_planned_as_requested(file: FileRequestView, media: MediaInfoView)
    requires
        prepare::resolved_action(media, file.compatibility, file.action) is Ok,
    ensures
        ({
            let policy = PlanningView {
                compatibility: file.compatibility,
                target: file.target,
                output_mode: file.output_mode,
                action: prepare::resolved_action(media, file.compatibility, file.action)->Ok_0,
                output_path: file.output,
            };
            let planned = plan::outcome(media, policy);
            let r = prepare::file_plan(file, media);
            &&& r is Ok <==> planned is Ok && planned->Ok_0 is Execute
            &&& r matches Ok(job) ==> planned == Ok::<PlanOutcomeView, PlanErrorView>(
                PlanOutcomeView::Execute(job),
            )
            &&& planned is Ok && planned->Ok_0 is Skip <==> r == Err::<
                JobPlanView,
                FileOutcomeView,
            >(FileOutcomeView::Skipped(SkipReason::NothingToDo))
            &&& planned is Err ==> (r matches Err(FileOutcomeView::Failed(f)) && f.stage
                == FailureStage::Plan)
        }),
{
}

/// A file is converted only where nothing is at its output and it is no dry run. An output that is as
/// promised is skipped, any other is a conflict, and a dry run tells the plan and what is there.
pub proof fn law_existing_outputs_decide(job: JobPlanView, existing: ExistingView, dry_run: bool)
    ensures
        ({
            let r = prepare::prepared_as(job, existing, dry_run);
            &&& !dry_run && existing is Absent <==> r is Ready
            &&& r matches PreparedView::Ready(kept) ==> kept == job
            &&& !dry_run && existing is Valid <==> r == PreparedView::Terminal(
                FileOutcomeView::Skipped(SkipReason::ValidExistingOutput),
            )
            &&& !dry_run && existing is Conflict ==> (r matches PreparedView::Terminal(
                FileOutcomeView::Failed(f),
            ) && f.stage == FailureStage::Conflict)
            &&& dry_run ==> (r matches PreparedView::Terminal(FileOutcomeView::Planned(told))
                && told.plan == job && told.existing == existing)
        }),
{
}

/// Nothing at an output path is told as such; a link or something that is no file is a conflict; only
/// a probe tells of a regular file, which is valid exactly where it is as the plan promised.
pub proof fn law_output_paths_are_inspected(
    job: JobPlanView,
    entry: Result<EntryFacts, IoErrorView>,
    media: MediaInfoView,
)
    ensures
        ({
            let v = application::entry_verdict(entry);
            let absent = entry is Err && entry->Err_0.kind == IoErrorKind::NotFound;
            let regular = entry is Ok && entry->Ok_0.file && !entry->Ok_0.symlink;
            let p = application::probe_verdict(job, media);
            &&& v is Ok && v->Ok_0 == Some(ExistingView::Absent) <==> absent
            &&& v is Ok && v->Ok_0 is None <==> regular
            &&& v is Ok && v->Ok_0 is Some && v->Ok_0->0 is Conflict <==> entry is Ok && !regular
            &&& v is Err <==> entry is Err && !absent
            &&& p is Valid <==> validate::all_mismatches(job, media).len() == 0
            &&& p is Conflict <==> validate::all_mismatches(job, media).len() > 0
            &&& p matches ExistingView::Conflict { mismatches } ==> mismatches
                == validate::all_mismatches(job, media)
        }),
{
}

/// What went wrong is a failure at its stage with its message, except that a cancellation is one.
pub proof fn law_errors_are_outcomes(error: RuntimeErrorView, stage: FailureStage)
    ensures
        error::is_cancellation(error) <==> prepare::outcome_of_error(error, stage)
            == FileOutcomeView::Cancelled(CancellationReason::User),
        !error::is_cancellation(error) ==> (prepare::outcome_of_error(error, stage)
            matches FileOutcomeView::Failed(f) && f.stage == stage && f.message
            == prepare::bounded_message(error.message())),
{
}

/// A message of at most 8192 bytes is kept as it is. Of a longer one a beginning of at most 8192
/// bytes is kept, as long as it can be without cutting a character, and an ellipsis stands for the
/// rest.
pub proof fn law_messages_are_bounded(message: Seq<char>)
    ensures
        ({
            let bytes = encode_utf8(message);
            let r = prepare::bounded_message(message);
            &&& bytes.len() <= 8_192 ==> r == message
            &&& bytes.len() > 8_192 ==> exists|k: int|
                0 <= k <= 8_192 && r == #[trigger] decode_utf8(bytes.take(k)).push('\u{2026}')
                    && forall|j: int| k < j <= 8_192 ==> !#[trigger] is_char_boundary(bytes, j)
            &&& bytes.len() > 8_192 ==> r.len() - 1 <= message.len() && r == message.take(
                r.len() - 1,
            ).push('\u{2026}')
        }),
{
    let bytes = encode_utf8(message);
    if bytes.len() > 8_192 {
        lemma_cut(bytes, 8_192);
        let k = prepare::cut_at(bytes, 8_192);
        encode_utf8_valid_utf8(message);
        encode_utf8_decode_utf8(message);
        is_char_boundary_start_end_of_seq(bytes);
        let kept = decode_utf8(bytes.take(k));
        assert(is_char_boundary(bytes, k));
        decode_utf8_split(bytes, k);
        assert(bytes.subrange(0, k) =~= bytes.take(k));
        let r = prepare::bounded_message(message);
        assert(r == kept.push('\u{2026}'));
        assert(message.take(kept.len() as int) =~= kept);
    }
}

proof fn lemma_cut(bytes: Seq<u8>, place: int)
    requires
        0 <= place,
    ensures
        0 <= prepare::cut_at(bytes, place) <= place,
        prepare::cut_at(bytes, place) == 0 || is_char_boundary(
            bytes,
            prepare::cut_at(bytes, place),
        ),
        forall|j: int|
            prepare::cut_at(bytes, place) < j <= place ==> !#[trigger] is_char_boundary(bytes, j),
    decreases place,
{
    if place > 0 && !is_char_boundary(bytes, place) {
        lemma_cut(bytes, place - 1);
    }
}

/// Where no stream suits a language, that is what is said; where several do, they are named.
pub proof fn law_why_languages_fail(media: MediaInfoView, policy: PolicyView, language: Seq<char>)
    requires
        prepare::candidates(media::audio_of(media.streams), policy, language) is Ok,
    ensures
        ({
            let streams = media::audio_of(media.streams);
            let r = prepare::language_selection(media, policy, language);
            let none = forall|i: int|
                0 <= i < streams.len() ==> !suits(#[trigger] streams[i], policy, language);
            let found = prepare::candidates(streams, policy, language)->Ok_0;
            &&& none ==> r == Err::<u32, _>(
                prepare::failure(
                    FailureStage::Selection,
                    "no compatible audio stream matches language `"@ + language + "`"@,
                ),
            )
            &&& !none && r is Err ==> r == Err::<u32, _>(
                prepare::failure(
                    FailureStage::Selection,
                    "language `"@ + language + "` is ambiguous; matching stream indices: "@
                        + text::join(prepare::index_texts(found), ", "@),
                ),
            )
        }),
{
    lemma_suitable(media::audio_of(media.streams), policy, language);
}

} // verus!
