//! What holds of every plan.
use vstd::prelude::*;

use crate::media;
use crate::media::MediaInfoView;
use crate::model;
use crate::path;
use crate::plan;
use crate::plan::{
    ExpectedCodecView, JobAction, JobPlanView, KindView, OperationView, PlanErrorView,
    PlanOutcomeView, PlanWarning, PlanningView, SelectorView, SkipReason,
};
use crate::policy::{CompatibilityView, PolicyView};
use crate::stream::{AudioStreamView, StreamInfoView};
use crate::target::{TargetLayout, TargetView};

verus! {

/// Whether planning comes to this plan.
pub open spec fn plans(media: MediaInfoView, policy: PlanningView, job: JobPlanView) -> bool {
    plan::outcome(media, policy) == Ok::<PlanOutcomeView, PlanErrorView>(
        PlanOutcomeView::Execute(job),
    )
}

/// How many of the output streams come from the source stream with this index.
pub open spec fn uses(streams: Seq<OperationView>, index: u32) -> nat
    decreases streams.len(),
{
    if streams.len() == 0 {
        0
    } else {
        uses(streams.drop_last(), index) + if streams.last().source() == index {
            1nat
        } else {
            0
        }
    }
}

/// A plan never writes over its input, and it copies the chapters and the global metadata.
pub proof fn law_plan_spares_its_input(media: MediaInfoView, policy: PlanningView, job: JobPlanView)
    requires
        plans(media, policy, job),
    ensures
        job.input == media.path,
        job.output == policy.output_path,
        !path::same_path(job.input, job.output),
        job.copy_chapters,
        job.copy_global_metadata,
        job.expected.chapters == media.chapters,
        job.expected.global_metadata == media.format.metadata,
{
}

/// Replacing keeps the number of streams and the source of each position.
pub proof fn law_replace_keeps_positions(
    media: MediaInfoView,
    policy: PlanningView,
    job: JobPlanView,
)
    requires
        plans(media, policy, job),
        policy.action is Convert,
        policy.output_mode is Replace,
    ensures
        job.streams.len() == media.streams.len(),
        forall|i: int|
            0 <= i < media.streams.len() ==> #[trigger] job.streams[i].source()
                == media.streams[i].index(),
{
}

/// A remux encodes nothing, keeps every stream at its position, and marks exactly the audio with
/// one index as default.
pub proof fn law_remux_never_encodes(media: MediaInfoView, policy: PlanningView, job: JobPlanView)
    requires
        plans(media, policy, job),
        policy.action is RemuxOnly,
    ensures
        job.streams.len() == media.streams.len(),
        forall|i: int|
            0 <= i < job.streams.len() ==> #[trigger] job.streams[i] is Copy
                && job.streams[i].source() == media.streams[i].index(),
        exists|s: int|
            0 <= s < media.streams.len() && plan::is_compatible(
                policy.compatibility,
                #[trigger] media.streams[s],
            ) && forall|i: int|
                0 <= i < job.streams.len() && media.streams[i] is Audio ==> (
                #[trigger] job.streams[i].dispositions()["default"@] <==> media.streams[i].index()
                    == media.streams[s].index()),
{
    let streams = media.streams;
    let candidates = plan::compatible_indices(streams, policy.compatibility);
    let selected = match policy.action->selection {
        plan::SelectorView::FirstCompatible => candidates[0],
        plan::SelectorView::StreamIndex(index) => index,
    };
    assert(candidates.contains(selected)) by {
        if policy.action->selection is FirstCompatible {
            assert(candidates[0] == selected);
        }
    }
    lemma_candidate(streams, policy.compatibility, selected);
    let s = choose|s: int|
        0 <= s < streams.len() && plan::is_compatible(policy.compatibility, #[trigger] streams[s])
            && streams[s].index() == selected;
    assert forall|i: int| 0 <= i < job.streams.len() && streams[i] is Audio implies (
    #[trigger] job.streams[i].dispositions()["default"@] <==> streams[i].index()
        == streams[s].index()) by {
        assert(job.streams[i] == plan::remux_streams(streams, selected)[i]);
    }
}

proof fn lemma_candidate(streams: Seq<StreamInfoView>, policy: PolicyView, index: u32)
    requires
        plan::compatible_indices(streams, policy).contains(index),
    ensures
        exists|s: int|
            0 <= s < streams.len() && plan::is_compatible(policy, #[trigger] streams[s])
                && streams[s].index() == index,
    decreases streams.len(),
{
    let all = plan::compatible_indices(streams, policy);
    let at = choose|at: int| 0 <= at < all.len() && all[at] == index;
    let rest = streams.drop_last();
    if plan::is_compatible(policy, streams.last()) && at == all.len() - 1 {
        assert(plan::is_compatible(policy, streams[streams.len() - 1]));
    } else {
        assert(plan::compatible_indices(rest, policy)[at] == index);
        lemma_candidate(rest, policy, index);
        let s = choose|s: int|
            0 <= s < rest.len() && plan::is_compatible(policy, #[trigger] rest[s])
                && rest[s].index() == index;
        assert(plan::is_compatible(policy, streams[s]));
    }
}

proof fn lemma_uses_split(a: Seq<OperationView>, b: Seq<OperationView>, index: u32)
    ensures
        uses(a + b, index) == uses(a, index) + uses(b, index),
    decreases b.len(),
{
    if b.len() == 0 {
        assert(a + b =~= a);
    } else {
        assert((a + b).drop_last() =~= a + b.drop_last());
        lemma_uses_split(a, b.drop_last(), index);
    }
}

/// Operations whose sources are the streams in order use each index once.
proof fn lemma_uses_once(
    streams: Seq<StreamInfoView>,
    operations: Seq<OperationView>,
    index: u32,
)
    requires
        media::indices_distinct(streams),
        operations.len() == streams.len(),
        forall|i: int|
            0 <= i < streams.len() ==> #[trigger] operations[i].source() == streams[i].index(),
    ensures
        uses(operations, index) == if media::has_index(streams, index) {
            1nat
        } else {
            0
        },
    decreases streams.len(),
{
    if streams.len() > 0 {
        let rest = streams.drop_last();
        let last = streams.len() - 1;
        assert(media::indices_distinct(rest)) by {
            assert forall|i: int, j: int| 0 <= i < j < rest.len() implies #[trigger] rest[i].index()
                != #[trigger] rest[j].index() by {
                assert(streams[i].index() != streams[j].index());
            }
        }
        assert forall|i: int| 0 <= i < rest.len() implies #[trigger] operations.drop_last()[i].source()
            == rest[i].index() by {
            assert(operations[i].source() == streams[i].index());
        }
        lemma_uses_once(rest, operations.drop_last(), index);
        assert(operations[last].source() == streams[last].index());
        if media::has_index(rest, index) {
            let i = choose|i: int| 0 <= i < rest.len() && #[trigger] rest[i].index() == index;
            assert(streams[i].index() == index);
            assert(streams[i].index() != streams[last].index());
        }
        if media::has_index(streams, index) && streams[last].index() != index {
            let i = choose|i: int| 0 <= i < streams.len() && #[trigger] streams[i].index() == index;
            assert(rest[i].index() == index);
        }
    }
}

/// The refused audio uses an index once where a refused stream has it, and not at all otherwise.
proof fn lemma_uses_refused(
    streams: Seq<StreamInfoView>,
    policy: PolicyView,
    operations: Seq<OperationView>,
    index: u32,
)
    requires
        media::indices_distinct(streams),
        operations.len() == plan::incompatible(streams, policy).len(),
        forall|i: int|
            0 <= i < operations.len() ==> #[trigger] operations[i].source() == plan::incompatible(
                streams,
                policy,
            )[i].common.index,
    ensures
        uses(operations, index) == if refused_index(streams, policy, index) {
            1nat
        } else {
            0
        },
    decreases streams.len(),
{
    if streams.len() > 0 {
        let rest = streams.drop_last();
        let last = streams.len() - 1;
        assert(media::indices_distinct(rest)) by {
            assert forall|i: int, j: int| 0 <= i < j < rest.len() implies #[trigger] rest[i].index()
                != #[trigger] rest[j].index() by {
                assert(streams[i].index() != streams[j].index());
            }
        }
        if refused_index(rest, policy, index) {
            let i = choose|i: int|
                0 <= i < rest.len() && #[trigger] rest[i].index() == index && plan::needs_encode(
                    policy,
                    rest[i],
                );
            assert(streams[i].index() == index);
            assert(streams[i].index() != streams[last].index());
            assert(refused_index(streams, policy, index));
        }
        if refused_index(streams, policy, index) && !(streams[last].index() == index
            && plan::needs_encode(policy, streams[last])) {
            let i = choose|i: int|
                0 <= i < streams.len() && #[trigger] streams[i].index() == index
                    && plan::needs_encode(policy, streams[i]);
            assert(rest[i].index() == index);
        }
        if plan::needs_encode(policy, streams.last()) {
            let fewer = operations.drop_last();
            assert forall|i: int| 0 <= i < fewer.len() implies #[trigger] fewer[i].source()
                == plan::incompatible(rest, policy)[i].common.index by {
                assert(operations[i].source() == plan::incompatible(
                    streams,
                    policy,
                )[i].common.index);
            }
            lemma_uses_refused(rest, policy, fewer, index);
            assert(operations[operations.len() - 1].source() == streams[last].index());
            if streams[last].index() == index {
                assert(refused_index(streams, policy, index));
            }
        } else {
            lemma_uses_refused(rest, policy, operations, index);
        }
    }
}

/// Whether a stream with this index is audio that the device does not accept.
pub open spec fn refused_index(
    streams: Seq<StreamInfoView>,
    policy: PolicyView,
    index: u32,
) -> bool {
    exists|i: int|
        0 <= i < streams.len() && #[trigger] streams[i].index() == index && plan::needs_encode(
            policy,
            streams[i],
        )
}

/// Adding uses each incompatible audio stream twice, once as a copy and once encoded, and every
/// other stream once.
pub proof fn law_add_duplicates_only_incompatible_audio(
    media: MediaInfoView,
    policy: PlanningView,
    job: JobPlanView,
    i: int,
)
    requires
        media::indices_distinct(media.streams),
        plans(media, policy, job),
        policy.action is Convert,
        policy.output_mode is Add,
        0 <= i < media.streams.len(),
    ensures
        uses(job.streams, media.streams[i].index()) == if plan::needs_encode(
            policy.compatibility,
            media.streams[i],
        ) {
            2nat
        } else {
            1
        },
{
    let streams = media.streams;
    let rules = policy.compatibility;
    let index = streams[i].index();
    let new = plan::incompatible(streams, rules);
    let kept = Seq::new(streams.len(), |k: int| plan::kept_beside(rules, streams[k]));
    let more = Seq::new(
        new.len(),
        |k: int| plan::added(new[k], k, plan::any_default(streams), policy.target),
    );
    assert(job.streams == kept + more);
    lemma_uses_split(kept, more, index);
    lemma_uses_once(streams, kept, index);
    assert(media::has_index(streams, index));
    lemma_uses_refused(streams, rules, more, index);
    if refused_index(streams, rules, index) {
        let j = choose|j: int|
            0 <= j < streams.len() && #[trigger] streams[j].index() == index && plan::needs_encode(
                rules,
                streams[j],
            );
        if i < j {
            assert(streams[i].index() != streams[j].index());
        } else if j < i {
            assert(streams[j].index() != streams[i].index());
        }
    }
}

/// Where audio is added, some audio of the output is marked as default.
pub proof fn law_add_has_default_audio(
    media: MediaInfoView,
    policy: PlanningView,
    job: JobPlanView,
)
    requires
        plans(media, policy, job),
        policy.action is Convert,
        policy.output_mode is Add,
    ensures
        exists|j: int, i: int|
            0 <= j < job.streams.len() && 0 <= i < media.streams.len()
                && #[trigger] media.streams[i] is Audio && #[trigger] job.streams[j].source()
                == media.streams[i].index() && job.streams[j].dispositions()["default"@],
{
    let streams = media.streams;
    let rules = policy.compatibility;
    let new = plan::incompatible(streams, rules);
    let n = streams.len() as int;
    assert(job.streams == plan::add_streams(streams, rules, policy.target));
    if plan::any_default(streams) {
        let i = choose|i: int|
            0 <= i < streams.len() && #[trigger] streams[i] is Audio
                && streams[i].common().is_default();
        if plan::needs_encode(rules, streams[i]) {
            lemma_refused_position(streams, rules, i);
            let k = choose|k: int| 0 <= k < new.len() && new[k] == streams[i]->Audio_0;
            assert(job.streams[n + k] == plan::added(
                new[k],
                k,
                plan::any_default(streams),
                policy.target,
            ));
            assert(job.streams[n + k].source() == streams[i].index());
        } else {
            assert(job.streams[i] == plan::kept_beside(rules, streams[i]));
            assert(job.streams[i].source() == streams[i].index());
        }
    } else {
        assert(job.streams[n] == plan::added(new[0], 0, false, policy.target));
        lemma_refused_source(streams, rules, 0);
        let i = choose|i: int|
            0 <= i < streams.len() && #[trigger] streams[i] is Audio && streams[i]->Audio_0
                == new[0] && plan::needs_encode(rules, streams[i]);
        assert(job.streams[n].source() == streams[i].index());
    }
}

proof fn lemma_refused_position(streams: Seq<StreamInfoView>, policy: PolicyView, i: int)
    requires
        0 <= i < streams.len(),
        plan::needs_encode(policy, streams[i]),
    ensures
        exists|k: int|
            0 <= k < plan::incompatible(streams, policy).len() && plan::incompatible(
                streams,
                policy,
            )[k] == streams[i]->Audio_0,
    decreases streams.len(),
{
    let all = plan::incompatible(streams, policy);
    if i == streams.len() - 1 {
        assert(all[all.len() - 1] == streams[i]->Audio_0);
    } else {
        let rest = streams.drop_last();
        lemma_refused_position(rest, policy, i);
        let k = choose|k: int|
            0 <= k < plan::incompatible(rest, policy).len() && plan::incompatible(rest, policy)[k]
                == streams[i]->Audio_0;
        assert(all[k] == streams[i]->Audio_0);
    }
}

proof fn lemma_refused_source(streams: Seq<StreamInfoView>, policy: PolicyView, k: int)
    requires
        0 <= k < plan::incompatible(streams, policy).len(),
    ensures
        exists|i: int|
            0 <= i < streams.len() && #[trigger] streams[i] is Audio && streams[i]->Audio_0
                == plan::incompatible(streams, policy)[k] && plan::needs_encode(
                policy,
                streams[i],
            ),
    decreases streams.len(),
{
    let all = plan::incompatible(streams, policy);
    let rest = streams.drop_last();
    if plan::needs_encode(policy, streams.last()) && k == all.len() - 1 {
        assert(streams[streams.len() - 1] is Audio);
    } else {
        lemma_refused_source(rest, policy, k);
        let i = choose|i: int|
            0 <= i < rest.len() && #[trigger] rest[i] is Audio && rest[i]->Audio_0
                == plan::incompatible(rest, policy)[k] && plan::needs_encode(policy, rest[i]);
        assert(streams[i] is Audio);
    }
}

/// Whether an operation encodes one of the refused audio streams.
pub open spec fn encodes_refused(
    streams: Seq<StreamInfoView>,
    policy: PolicyView,
    operation: OperationView,
) -> bool {
    exists|i: int|
        0 <= i < streams.len() && plan::needs_encode(policy, #[trigger] streams[i])
            && operation.source() == streams[i].index()
}

proof fn lemma_only_new(
    streams: Seq<StreamInfoView>,
    policy: PolicyView,
    target: TargetView,
)
    ensures
        forall|j: int|
            0 <= j < plan::only_new_streams(streams, policy, target).len()
                ==> only_new_operation(
                streams,
                policy,
                target,
                #[trigger] plan::only_new_streams(streams, policy, target)[j],
            ),
        forall|i: int|
            0 <= i < streams.len() && !(#[trigger] streams[i] is Audio) ==> plan::only_new_streams(
                streams,
                policy,
                target,
            ).contains(plan::copied(streams[i], streams[i].common().dispositions)),
    decreases streams.len(),
{
    let all = plan::only_new_streams(streams, policy, target);
    if streams.len() > 0 {
        let rest = streams.drop_last();
        let fewer = plan::only_new_streams(rest, policy, target);
        lemma_only_new(rest, policy, target);
        assert forall|j: int| 0 <= j < all.len() implies only_new_operation(
            streams,
            policy,
            target,
            #[trigger] all[j],
        ) by {
            if j < fewer.len() {
                assert(all[j] == fewer[j]);
                assert(only_new_operation(rest, policy, target, fewer[j]));
                let i = choose|i: int|
                    0 <= i < rest.len() && (!(#[trigger] rest[i] is Audio) || plan::needs_encode(
                        policy,
                        rest[i],
                    )) && fewer[j] == plan::replaced(policy, target, rest[i]);
                assert(streams[i] == rest[i]);
            } else {
                assert(streams[streams.len() - 1] == streams.last());
            }
        }
        assert forall|i: int| 0 <= i < streams.len() && !(#[trigger] streams[i] is Audio) implies all.contains(
        plan::copied(streams[i], streams[i].common().dispositions)) by {
            let wanted = plan::copied(streams[i], streams[i].common().dispositions);
            if i < rest.len() {
                assert(rest[i] == streams[i]);
                assert(fewer.contains(wanted));
                let j = choose|j: int| 0 <= j < fewer.len() && fewer[j] == wanted;
                assert(all[j] == wanted);
            } else {
                assert(all[all.len() - 1] == wanted);
            }
        }
    }
}

/// Whether an operation stands for a stream that is no audio, or for refused audio.
pub open spec fn only_new_operation(
    streams: Seq<StreamInfoView>,
    policy: PolicyView,
    target: TargetView,
    operation: OperationView,
) -> bool {
    exists|i: int|
        0 <= i < streams.len() && (!(#[trigger] streams[i] is Audio) || plan::needs_encode(
            policy,
            streams[i],
        )) && operation == plan::replaced(policy, target, streams[i])
}

/// Streams that are no audio are always copied with their dispositions, and whatever is encoded is
/// audio that the device does not accept.
pub proof fn law_only_refused_audio_is_encoded(
    media: MediaInfoView,
    policy: PlanningView,
    job: JobPlanView,
)
    requires
        plans(media, policy, job),
    ensures
        forall|i: int|
            0 <= i < media.streams.len() && !(#[trigger] media.streams[i] is Audio)
                ==> job.streams.contains(
                plan::copied(media.streams[i], media.streams[i].common().dispositions),
            ),
        forall|j: int|
            0 <= j < job.streams.len() && #[trigger] job.streams[j] is EncodeAudio
                ==> encodes_refused(media.streams, policy.compatibility, job.streams[j]),
{
    let streams = media.streams;
    let rules = policy.compatibility;
    let n = streams.len() as int;
    lemma_only_new(streams, rules, policy.target);
    assert forall|i: int| 0 <= i < streams.len() && !(#[trigger] streams[i] is Audio) implies job.streams.contains(
    plan::copied(streams[i], streams[i].common().dispositions)) by {
        if !(policy.action is Convert && policy.output_mode is OnlyNew) {
            assert(job.streams[i] == plan::copied(streams[i], streams[i].common().dispositions));
        }
    }
    assert forall|j: int| 0 <= j < job.streams.len() && #[trigger] job.streams[j] is EncodeAudio implies encodes_refused(
    streams, rules, job.streams[j]) by {
        if policy.action is Convert {
            if policy.output_mode is Add {
                let new = plan::incompatible(streams, rules);
                if j < n {
                    assert(job.streams[j] == plan::kept_beside(rules, streams[j]));
                } else {
                    assert(job.streams[j] == plan::added(
                        new[j - n],
                        j - n,
                        plan::any_default(streams),
                        policy.target,
                    ));
                    lemma_refused_source(streams, rules, j - n);
                    let i = choose|i: int|
                        0 <= i < streams.len() && #[trigger] streams[i] is Audio
                            && streams[i]->Audio_0 == new[j - n] && plan::needs_encode(
                            rules,
                            streams[i],
                        );
                    assert(plan::needs_encode(rules, streams[i]));
                }
            } else if policy.output_mode is Replace {
                assert(job.streams[j] == plan::replaced(rules, policy.target, streams[j]));
                assert(plan::needs_encode(rules, streams[j]));
            } else {
                assert(only_new_operation(streams, rules, policy.target, job.streams[j]));
                let i = choose|i: int|
                    0 <= i < streams.len() && (!(#[trigger] streams[i] is Audio)
                        || plan::needs_encode(rules, streams[i])) && job.streams[j]
                        == plan::replaced(rules, policy.target, streams[i]);
                assert(plan::needs_encode(rules, streams[i]));
            }
        } else {
            law_remux_never_encodes(media, policy, job);
        }
    }
}

/// Where only new audio is wanted, no audio of the source is copied.
pub proof fn law_only_new_omits_original_audio(
    media: MediaInfoView,
    policy: PlanningView,
    job: JobPlanView,
    i: int,
    j: int,
)
    requires
        media::indices_distinct(media.streams),
        plans(media, policy, job),
        policy.action is Convert,
        policy.output_mode is OnlyNew,
        0 <= i < media.streams.len(),
        media.streams[i] is Audio,
        0 <= j < job.streams.len(),
        job.streams[j] is Copy,
    ensures
        job.streams[j].source() != media.streams[i].index(),
{
    let streams = media.streams;
    lemma_only_new(streams, policy.compatibility, policy.target);
    assert(only_new_operation(streams, policy.compatibility, policy.target, job.streams[j]));
    let k = choose|k: int|
        0 <= k < streams.len() && (!(#[trigger] streams[k] is Audio) || plan::needs_encode(
            policy.compatibility,
            streams[k],
        )) && job.streams[j] == plan::replaced(policy.compatibility, policy.target, streams[k]);
    if i < k {
        assert(streams[i].index() != streams[k].index());
    } else if k < i {
        assert(streams[k].index() != streams[i].index());
    }
}

/// Encoded audio inherits every metadata value of its source but the title, which names the
/// target.
pub proof fn law_encoded_audio_inherits_metadata(
    stream: AudioStreamView,
    target: TargetView,
    dispositions: crate::stream::DispositionsView,
    key: Seq<char>,
)
    ensures
        plan::encoded(stream, target, dispositions) matches OperationView::EncodeAudio {
            metadata,
            ..
        } && model::lookup(metadata, key) == if key == "title"@ {
            Some(plan::derived_title(target, stream))
        } else {
            model::lookup(stream.common.metadata, key)
        },
{
}

/// Nothing is skipped unless every audio stream is compatible.
pub proof fn law_skip_means_all_compatible(media: MediaInfoView, policy: PlanningView, i: int)
    requires
        plan::outcome(media, policy) matches Ok(o) && o is Skip,
        0 <= i < media.streams.len(),
        media.streams[i] is Audio,
    ensures
        plan::is_compatible(policy.compatibility, media.streams[i]),
{
    lemma_classified(media.streams, policy.compatibility, i);
    if plan::needs_encode(policy.compatibility, media.streams[i]) {
        lemma_refused_position(media.streams, policy.compatibility, i);
    }
}

proof fn lemma_classified(streams: Seq<StreamInfoView>, policy: PolicyView, i: int)
    requires
        plan::policy_fault(streams, policy) is None,
        0 <= i < streams.len(),
        streams[i] is Audio,
    ensures
        policy.classify(streams[i]->Audio_0) is Ok,
    decreases streams.len(),
{
    if i < streams.len() - 1 {
        lemma_classified(streams.drop_last(), policy, i);
    }
}

/// A plan and its expectations speak of the same streams in the same order: each expected stream
/// has the source and the dispositions of its operation, and encoded streams are expected to be
/// audio.
pub proof fn law_expectations_follow_operations(
    media: MediaInfoView,
    policy: PlanningView,
    job: JobPlanView,
)
    requires
        plans(media, policy, job),
    ensures
        job.expected.streams.len() == job.streams.len(),
        forall|i: int|
            0 <= i < job.streams.len() ==> {
                &&& #[trigger] job.expected.streams[i].source == job.streams[i].source()
                &&& job.expected.streams[i].dispositions == job.streams[i].dispositions()
                &&& job.streams[i] is EncodeAudio ==> job.expected.streams[i].kind is Audio
            },
{
}

/// A copied stream is expected to keep its kind, codec, timing and metadata.
pub proof fn law_copies_keep_their_facts(
    media: MediaInfoView,
    policy: PlanningView,
    job: JobPlanView,
    i: int,
    j: int,
)
    requires
        media::indices_distinct(media.streams),
        plans(media, policy, job),
        0 <= i < media.streams.len(),
        0 <= j < job.streams.len(),
        job.streams[j] is Copy,
        job.streams[j].source() == media.streams[i].index(),
    ensures
        ({
            let wanted = job.expected.streams[j];
            let common = media.streams[i].common();
            &&& wanted.kind == plan::kind_of(media.streams[i])
            &&& wanted.codec == plan::ExpectedCodecView::Copied(common.codec_name)
            &&& wanted.timing == common.timing
            &&& wanted.metadata == common.metadata
        }),
{
    lemma_source_of(media.streams, i);
}

proof fn lemma_source_of(streams: Seq<StreamInfoView>, i: int)
    requires
        media::indices_distinct(streams),
        0 <= i < streams.len(),
    ensures
        plan::source_of(streams, streams[i].index()) == Some(streams[i]),
    decreases streams.len(),
{
    if i > 0 {
        let rest = streams.drop_first();
        assert(streams[0].index() != streams[i].index());
        assert(media::indices_distinct(rest)) by {
            assert forall|a: int, b: int| 0 <= a < b < rest.len() implies #[trigger] rest[a].index()
                != #[trigger] rest[b].index() by {
                assert(streams[a + 1].index() != streams[b + 1].index());
            }
        }
        lemma_source_of(rest, i - 1);
    }
}

/// Whether a stream is audio of which the policy says that the device refuses it.
pub open spec fn refused(policy: PolicyView, stream: StreamInfoView) -> bool {
    stream matches StreamInfoView::Audio(audio) && (policy.classify(audio) matches Ok(
        CompatibilityView::Incompatible(_),
    ))
}

/// Whether a stream is audio of which the policy says that the device plays it.
pub open spec fn accepted(policy: PolicyView, stream: StreamInfoView) -> bool {
    stream matches StreamInfoView::Audio(audio) && (policy.classify(audio) matches Ok(
        CompatibilityView::Compatible,
    ))
}

/// Whether a target asks for a layout.
pub open spec fn asks_for(target: TargetView, layout: TargetLayout) -> bool {
    match target {
        TargetView::Ac3 { layout: wanted, .. } => wanted == layout,
        TargetView::Eac3 { layout: wanted, .. } => wanted == layout,
        TargetView::Aac { layout: wanted, .. } => wanted == layout,
    }
}

/// Every encoded stream of a plan comes from refused audio.
proof fn lemma_encoded_from(media: MediaInfoView, policy: PlanningView, job: JobPlanView, j: int)
    requires
        plans(media, policy, job),
        0 <= j < job.streams.len(),
        job.streams[j] is EncodeAudio,
    ensures
        exists|i: int|
            0 <= i < media.streams.len() && plan::needs_encode(
                policy.compatibility,
                #[trigger] media.streams[i],
            ) && job.streams[j] == plan::encoded(
                media.streams[i]->Audio_0,
                policy.target,
                job.streams[j].dispositions(),
            ),
{
    let streams = media.streams;
    let rules = policy.compatibility;
    let n = streams.len() as int;
    if policy.action is Convert {
        if policy.output_mode is Add {
            let new = plan::incompatible(streams, rules);
            if j < n {
                assert(job.streams[j] == plan::kept_beside(rules, streams[j]));
            } else {
                assert(job.streams[j] == plan::added(
                    new[j - n],
                    j - n,
                    plan::any_default(streams),
                    policy.target,
                ));
                lemma_refused_source(streams, rules, j - n);
                let i = choose|i: int|
                    0 <= i < streams.len() && #[trigger] streams[i] is Audio && streams[i]->Audio_0
                        == new[j - n] && plan::needs_encode(rules, streams[i]);
                assert(plan::needs_encode(rules, streams[i]));
            }
        } else if policy.output_mode is Replace {
            assert(job.streams[j] == plan::replaced(rules, policy.target, streams[j]));
            assert(plan::needs_encode(rules, streams[j]));
        } else {
            lemma_only_new(streams, rules, policy.target);
            assert(only_new_operation(streams, rules, policy.target, job.streams[j]));
            let i = choose|i: int|
                0 <= i < streams.len() && (!(#[trigger] streams[i] is Audio) || plan::needs_encode(
                    rules,
                    streams[i],
                )) && job.streams[j] == plan::replaced(rules, policy.target, streams[i]);
            assert(plan::needs_encode(rules, streams[i]));
        }
    } else {
        law_remux_never_encodes(media, policy, job);
    }
}

/// The place of the source of an encoded stream is the only one with its index.
proof fn lemma_encoded_source(
    media: MediaInfoView,
    policy: PlanningView,
    job: JobPlanView,
    j: int,
    i: int,
)
    requires
        media::indices_distinct(media.streams),
        plans(media, policy, job),
        0 <= j < job.streams.len(),
        job.streams[j] is EncodeAudio,
        0 <= i < media.streams.len(),
        media.streams[i].index() == job.streams[j].source(),
    ensures
        plan::needs_encode(policy.compatibility, media.streams[i]),
        job.streams[j] == plan::encoded(
            media.streams[i]->Audio_0,
            policy.target,
            job.streams[j].dispositions(),
        ),
{
    let streams = media.streams;
    lemma_encoded_from(media, policy, job, j);
    let k = choose|k: int|
        0 <= k < streams.len() && plan::needs_encode(policy.compatibility, #[trigger] streams[k])
            && job.streams[j] == plan::encoded(
            streams[k]->Audio_0,
            policy.target,
            job.streams[j].dispositions(),
        );
    if i < k {
        assert(streams[i].index() != streams[k].index());
    } else if k < i {
        assert(streams[k].index() != streams[i].index());
    }
}

/// Encoded audio has two channels where the target asks for stereo, six where it asks for 5.1, and
/// otherwise as many as its source, but never more than six.
pub proof fn law_encoded_channels(
    media: MediaInfoView,
    policy: PlanningView,
    job: JobPlanView,
    j: int,
    i: int,
)
    requires
        media::indices_distinct(media.streams),
        plans(media, policy, job),
        0 <= j < job.streams.len(),
        job.streams[j] is EncodeAudio,
        0 <= i < media.streams.len(),
        media.streams[i].index() == job.streams[j].source(),
    ensures
        media.streams[i] is Audio,
        ({
            let had = media.streams[i]->Audio_0.channels.count;
            let has = job.streams[j]->output_channels;
            &&& asks_for(policy.target, TargetLayout::Stereo) ==> has == 2
            &&& asks_for(policy.target, TargetLayout::Surround51) ==> has == 6
            &&& asks_for(policy.target, TargetLayout::KeepUpTo51) && had <= 6 ==> has == had
            &&& asks_for(policy.target, TargetLayout::KeepUpTo51) && had > 6 ==> has == 6
        }),
{
    lemma_encoded_source(media, policy, job, j, i);
}

/// Encoded audio is encoded to the target that was asked for, from audio that the device refuses.
pub proof fn law_encoded_target(
    media: MediaInfoView,
    policy: PlanningView,
    job: JobPlanView,
    j: int,
    i: int,
)
    requires
        media::indices_distinct(media.streams),
        plans(media, policy, job),
        0 <= j < job.streams.len(),
        job.streams[j] is EncodeAudio,
        0 <= i < media.streams.len(),
        media.streams[i].index() == job.streams[j].source(),
    ensures
        job.streams[j]->target == policy.target,
        refused(policy.compatibility, media.streams[i]),
        !accepted(policy.compatibility, media.streams[i]),
{
    lemma_encoded_source(media, policy, job, j, i);
}

/// What stands in the title of encoded audio for its codec and the layout of its channels.
pub open spec fn title_tail(target: TargetView, channels: u16) -> Seq<char> {
    let codec = match target {
        TargetView::Ac3 { .. } => "AC-3"@,
        TargetView::Eac3 { .. } => "E-AC-3"@,
        TargetView::Aac { .. } => "AAC"@,
    };
    let layout = if asks_for(target, TargetLayout::Stereo) {
        "stereo"@
    } else if asks_for(target, TargetLayout::Surround51) || channels == 0 || channels >= 6 {
        "5.1"@
    } else {
        seq!["mono"@, "stereo"@, "3.0"@, "4.0"@, "5.0"@][channels - 1]
    };
    codec + " "@ + layout
}

/// The title of encoded audio names codec and layout, behind the title of its source where that has
/// one. All other metadata is that of the source.
pub proof fn law_encoded_title(
    media: MediaInfoView,
    policy: PlanningView,
    job: JobPlanView,
    j: int,
    i: int,
)
    requires
        media::indices_distinct(media.streams),
        plans(media, policy, job),
        0 <= j < job.streams.len(),
        job.streams[j] is EncodeAudio,
        0 <= i < media.streams.len(),
        media.streams[i].index() == job.streams[j].source(),
    ensures
        ({
            let source = media.streams[i].common().metadata;
            let written = job.streams[j]->metadata;
            let tail = title_tail(policy.target, media.streams[i]->Audio_0.channels.count);
            &&& written.dom() == source.dom().insert("title"@)
            &&& source.dom().contains("title"@) ==> written["title"@] == source["title"@] + " ["@
                + tail + "]"@
            &&& !source.dom().contains("title"@) ==> written["title"@] == tail
            &&& forall|key: Seq<char>|
                source.dom().contains(key) && key != "title"@ ==> #[trigger] written[key]
                    == source[key]
        }),
{
    lemma_encoded_source(media, policy, job, j, i);
}

/// Whether two sets of disposition flags agree in everything but the default mark.
pub open spec fn same_but_default(
    a: crate::stream::DispositionsView,
    b: crate::stream::DispositionsView,
) -> bool {
    &&& a.dom().insert("default"@) =~= b.dom().insert("default"@)
    &&& forall|name: Seq<char>|
        a.dom().contains(name) && name != "default"@ ==> #[trigger] a[name] == b[name]
}

/// Replacing encodes exactly the refused audio, each at its place, copies everything else, and
/// keeps the disposition flags of every stream.
pub proof fn law_replace_by_position(
    media: MediaInfoView,
    policy: PlanningView,
    job: JobPlanView,
    i: int,
)
    requires
        plans(media, policy, job),
        policy.action is Convert,
        policy.output_mode is Replace,
        0 <= i < media.streams.len(),
    ensures
        job.streams.len() == media.streams.len(),
        job.streams[i] is EncodeAudio <==> refused(policy.compatibility, media.streams[i]),
        job.streams[i].source() == media.streams[i].index(),
        job.streams[i].dispositions() == media.streams[i].common().dispositions,
{
    assert(job.streams[i] == plan::replaced(
        policy.compatibility,
        policy.target,
        media.streams[i],
    ));
}

/// Adding copies every stream of the source first, at its place. Only refused audio gives its default
/// mark up; every other flag is kept.
pub proof fn law_add_keeps_the_source(
    media: MediaInfoView,
    policy: PlanningView,
    job: JobPlanView,
    i: int,
)
    requires
        plans(media, policy, job),
        policy.action is Convert,
        policy.output_mode is Add,
        0 <= i < media.streams.len(),
    ensures
        job.streams.len() > media.streams.len(),
        job.streams[i] is Copy,
        job.streams[i].source() == media.streams[i].index(),
        !refused(policy.compatibility, media.streams[i]) ==> job.streams[i].dispositions()
            == media.streams[i].common().dispositions,
        refused(policy.compatibility, media.streams[i]) ==> !job.streams[i].dispositions()["default"@]
            && same_but_default(
            job.streams[i].dispositions(),
            media.streams[i].common().dispositions,
        ),
{
    assert(job.streams[i] == plan::kept_beside(policy.compatibility, media.streams[i]));
}

/// The number of refused audio streams among the first `n`.
pub open spec fn refused_before(
    streams: Seq<StreamInfoView>,
    policy: PolicyView,
    n: int,
) -> nat
    decreases n,
{
    if n <= 0 {
        0
    } else {
        refused_before(streams, policy, n - 1) + if refused(policy, streams[n - 1]) {
            1nat
        } else {
            0
        }
    }
}

/// Refused audio stands in the list of all refused audio behind those that come before it.
proof fn lemma_refused_at(streams: Seq<StreamInfoView>, policy: PolicyView, i: int)
    requires
        0 <= i < streams.len(),
        refused(policy, streams[i]),
    ensures
        plan::incompatible(streams, policy).len() == refused_before(
            streams,
            policy,
            streams.len() as int,
        ),
        refused_before(streams, policy, i) < plan::incompatible(streams, policy).len(),
        plan::incompatible(streams, policy)[refused_before(streams, policy, i) as int]
            == streams[i]->Audio_0,
    decreases streams.len(),
{
    let rest = streams.drop_last();
    lemma_refused_count(streams, policy);
    lemma_refused_prefix(streams, rest, policy, i);
    lemma_refused_count(rest, policy);
    if i < streams.len() - 1 {
        assert(rest[i] == streams[i]);
        lemma_refused_at(rest, policy, i);
    } else {
        lemma_refused_prefix(streams, rest, policy, streams.len() - 1);
    }
}

proof fn lemma_refused_prefix(
    a: Seq<StreamInfoView>,
    b: Seq<StreamInfoView>,
    policy: PolicyView,
    n: int,
)
    requires
        b.len() <= a.len(),
        n <= b.len(),
        forall|k: int| 0 <= k < b.len() ==> #[trigger] a[k] == b[k],
    ensures
        refused_before(a, policy, n) == refused_before(b, policy, n),
    decreases n,
{
    if n > 0 {
        lemma_refused_prefix(a, b, policy, n - 1);
        assert(a[n - 1] == b[n - 1]);
    }
}

proof fn lemma_refused_count(streams: Seq<StreamInfoView>, policy: PolicyView)
    ensures
        plan::incompatible(streams, policy).len() == refused_before(
            streams,
            policy,
            streams.len() as int,
        ),
    decreases streams.len(),
{
    if streams.len() > 0 {
        let rest = streams.drop_last();
        lemma_refused_count(rest, policy);
        lemma_refused_prefix(streams, rest, policy, streams.len() - 1);
    }
}

/// Adding puts one encoded stream for each refused audio stream behind the streams of the source, in
/// their order. It is the default where its source is, and the first one also where no audio of the
/// source is; every other flag is that of its source.
pub proof fn law_add_appends_in_order(
    media: MediaInfoView,
    policy: PlanningView,
    job: JobPlanView,
    i: int,
)
    requires
        plans(media, policy, job),
        policy.action is Convert,
        policy.output_mode is Add,
        0 <= i < media.streams.len(),
        refused(policy.compatibility, media.streams[i]),
    ensures
        ({
            let streams = media.streams;
            let rules = policy.compatibility;
            let before = refused_before(streams, rules, i);
            let at = streams.len() + before;
            let flags = streams[i].common().dispositions;
            &&& job.streams.len() == streams.len() + refused_before(
                streams,
                rules,
                streams.len() as int,
            )
            &&& at < job.streams.len()
            &&& job.streams[at as int] is EncodeAudio
            &&& job.streams[at as int].source() == streams[i].index()
            &&& same_but_default(job.streams[at as int].dispositions(), flags)
            &&& job.streams[at as int].dispositions()["default"@] <==> flags["default"@] || (before
                == 0 && forall|k: int|
                0 <= k < streams.len() && #[trigger] streams[k] is Audio
                    ==> !streams[k].common().dispositions["default"@])
        }),
{
    let streams = media.streams;
    let rules = policy.compatibility;
    let before = refused_before(streams, rules, i);
    let new = plan::incompatible(streams, rules);
    lemma_refused_at(streams, rules, i);
    assert(plan::any_default(streams) <==> !(forall|k: int|
        0 <= k < streams.len() && #[trigger] streams[k] is Audio
            ==> !streams[k].common().dispositions["default"@]));
    assert(job.streams == plan::add_streams(streams, rules, policy.target));
    assert(job.streams[(streams.len() + before) as int] == plan::added(
        new[before as int],
        before as int,
        plan::any_default(streams),
        policy.target,
    ));
}

/// Whether a stream is kept where the audio of the source is dropped: it is no audio, or audio that
/// is encoded.
pub open spec fn survives(policy: PolicyView, stream: StreamInfoView) -> bool {
    !(stream is Audio) || refused(policy, stream)
}

/// How many of the first `n` streams are kept where the audio of the source is dropped.
pub open spec fn survivors_before(
    streams: Seq<StreamInfoView>,
    policy: PolicyView,
    n: int,
) -> nat
    decreases n,
{
    if n <= 0 {
        0
    } else {
        survivors_before(streams, policy, n - 1) + if survives(policy, streams[n - 1]) {
            1nat
        } else {
            0
        }
    }
}

proof fn lemma_survivors_prefix(
    a: Seq<StreamInfoView>,
    b: Seq<StreamInfoView>,
    policy: PolicyView,
    n: int,
)
    requires
        b.len() <= a.len(),
        n <= b.len(),
        forall|k: int| 0 <= k < b.len() ==> #[trigger] a[k] == b[k],
    ensures
        survivors_before(a, policy, n) == survivors_before(b, policy, n),
    decreases n,
{
    if n > 0 {
        lemma_survivors_prefix(a, b, policy, n - 1);
        assert(a[n - 1] == b[n - 1]);
    }
}

proof fn lemma_survivors(
    streams: Seq<StreamInfoView>,
    policy: PolicyView,
    target: TargetView,
    i: int,
)
    requires
        0 <= i <= streams.len(),
    ensures
        plan::only_new_streams(streams, policy, target).len() == survivors_before(
            streams,
            policy,
            streams.len() as int,
        ),
        i < streams.len() && survives(policy, streams[i]) ==> survivors_before(streams, policy, i)
            < plan::only_new_streams(streams, policy, target).len() && plan::only_new_streams(
            streams,
            policy,
            target,
        )[survivors_before(streams, policy, i) as int] == plan::replaced(
            policy,
            target,
            streams[i],
        ),
    decreases streams.len(),
{
    if streams.len() > 0 {
        let rest = streams.drop_last();
        lemma_survivors_prefix(streams, rest, policy, streams.len() - 1);
        if i < streams.len() {
            lemma_survivors_prefix(streams, rest, policy, i);
        }
        if i < rest.len() {
            assert(rest[i] == streams[i]);
            lemma_survivors(rest, policy, target, i);
        } else {
            lemma_survivors(rest, policy, target, rest.len() as int);
        }
    }
}

/// Where only new audio is wanted, the streams that are no audio are copied and the refused audio is
/// encoded, in their order, with the disposition flags of their sources; nothing else is written.
pub proof fn law_only_new_in_order(
    media: MediaInfoView,
    policy: PlanningView,
    job: JobPlanView,
    i: int,
)
    requires
        plans(media, policy, job),
        policy.action is Convert,
        policy.output_mode is OnlyNew,
        0 <= i < media.streams.len(),
        survives(policy.compatibility, media.streams[i]),
    ensures
        ({
            let at = survivors_before(media.streams, policy.compatibility, i);
            &&& job.streams.len() == survivors_before(
                media.streams,
                policy.compatibility,
                media.streams.len() as int,
            )
            &&& at < job.streams.len()
            &&& job.streams[at as int] is EncodeAudio <==> media.streams[i] is Audio
            &&& job.streams[at as int].source() == media.streams[i].index()
            &&& job.streams[at as int].dispositions() == media.streams[i].common().dispositions
        }),
{
    lemma_survivors(media.streams, policy.compatibility, policy.target, i);
}

/// Planning needs a Matroska file with audio, an output that is not the input, and a policy that can
/// tell of every audio stream whether it is accepted. The first that is missing, in this order, is
/// the error.
pub proof fn law_what_planning_needs(media: MediaInfoView, policy: PlanningView)
    ensures
        ({
            let r = plan::outcome(media, policy);
            let matroska = path::is_mkv(media.path) && media.format.names.contains("matroska"@);
            let audio = exists|i: int|
                0 <= i < media.streams.len() && #[trigger] media.streams[i] is Audio;
            let apart = !path::same_path(media.path, policy.output_path);
            let told = forall|i: int|
                0 <= i < media.streams.len() && #[trigger] media.streams[i] is Audio
                    ==> policy.compatibility.classify(media.streams[i]->Audio_0) is Ok;
            &&& r is Err && r->Err_0 is UnsupportedContainer <==> !matroska
            &&& r is Err && r->Err_0 is NoAudioStreams <==> matroska && !audio
            &&& r is Err && r->Err_0 is InputEqualsOutput <==> matroska && audio && !apart
            &&& r is Err && r->Err_0 is Policy <==> matroska && audio && apart && !told
        }),
{
    lemma_audio_listed(media.streams);
    lemma_all_told(media.streams, policy.compatibility);
}

proof fn lemma_audio_listed(streams: Seq<StreamInfoView>)
    ensures
        media::audio_of(streams).len() > 0 <==> exists|i: int|
            0 <= i < streams.len() && #[trigger] streams[i] is Audio,
    decreases streams.len(),
{
    if streams.len() > 0 {
        let rest = streams.drop_last();
        lemma_audio_listed(rest);
        if streams.last() is Audio {
            assert(streams[streams.len() - 1] is Audio);
        }
        if exists|i: int| 0 <= i < rest.len() && #[trigger] rest[i] is Audio {
            let i = choose|i: int| 0 <= i < rest.len() && #[trigger] rest[i] is Audio;
            assert(streams[i] is Audio);
        }
        if exists|i: int| 0 <= i < streams.len() && #[trigger] streams[i] is Audio {
            let i = choose|i: int| 0 <= i < streams.len() && #[trigger] streams[i] is Audio;
            if i < rest.len() {
                assert(rest[i] is Audio);
            }
        }
    }
}

proof fn lemma_all_told(streams: Seq<StreamInfoView>, policy: PolicyView)
    ensures
        plan::policy_fault(streams, policy) is None <==> forall|i: int|
            0 <= i < streams.len() && #[trigger] streams[i] is Audio ==> policy.classify(
                streams[i]->Audio_0,
            ) is Ok,
    decreases streams.len(),
{
    if streams.len() > 0 {
        let rest = streams.drop_last();
        lemma_all_told(rest, policy);
        assert(streams[streams.len() - 1] == streams.last());
        if plan::policy_fault(rest, policy) is Some {
            let i = choose|i: int|
                0 <= i < rest.len() && #[trigger] rest[i] is Audio && !(policy.classify(
                    rest[i]->Audio_0,
                ) is Ok);
            assert(streams[i] is Audio);
        } else {
            assert forall|i: int| 0 <= i < rest.len() && #[trigger] rest[i] is Audio implies policy.classify(
            streams[i]->Audio_0) is Ok by {}
            if policy.classify(streams.last()->Audio_0) is Ok || !(streams.last() is Audio) {
                assert forall|i: int| 0 <= i < streams.len() && #[trigger] streams[i] is Audio implies policy.classify(
                streams[i]->Audio_0) is Ok by {
                    if i < rest.len() {
                        assert(rest[i] is Audio);
                    }
                }
            }
        }
    }
}

/// A file that can be planned for is converted where some audio is refused. Where none is, there is
/// nothing to do: the file is skipped, and asking for new audio alone is an error.
pub proof fn law_when_there_is_work(media: MediaInfoView, policy: PlanningView)
    requires
        policy.action is Convert,
        plan::outcome(media, policy) matches Err(e) ==> e is NothingToDo,
    ensures
        ({
            let work = exists|i: int|
                0 <= i < media.streams.len() && refused(
                    policy.compatibility,
                    #[trigger] media.streams[i],
                );
            let r = plan::outcome(media, policy);
            &&& work <==> r is Ok && r->Ok_0 is Execute
            &&& !work && policy.output_mode is OnlyNew <==> r is Err
            &&& !work && !(policy.output_mode is OnlyNew) <==> r
                == Ok::<PlanOutcomeView, PlanErrorView>(
                PlanOutcomeView::Skip(SkipReason::NothingToDo),
            )
        }),
{
    let streams = media.streams;
    let rules = policy.compatibility;
    if exists|i: int| 0 <= i < streams.len() && refused(rules, #[trigger] streams[i]) {
        let i = choose|i: int| 0 <= i < streams.len() && refused(rules, #[trigger] streams[i]);
        lemma_refused_position(streams, rules, i);
    }
    if plan::incompatible(streams, rules).len() > 0 {
        lemma_refused_source(streams, rules, 0);
        let i = choose|i: int|
            0 <= i < streams.len() && #[trigger] streams[i] is Audio && streams[i]->Audio_0
                == plan::incompatible(streams, rules)[0] && plan::needs_encode(rules, streams[i]);
        assert(refused(rules, streams[i]));
    }
}

/// A remux makes the audio that was chosen by its index the only default, or else the first audio
/// that the device accepts. Other flags stay as they are.
pub proof fn law_remux_selection(
    media: MediaInfoView,
    policy: PlanningView,
    job: JobPlanView,
    s: int,
    i: int,
)
    requires
        media::indices_distinct(media.streams),
        plans(media, policy, job),
        policy.action is RemuxOnly,
        0 <= s < media.streams.len(),
        policy.action->selection matches SelectorView::StreamIndex(index)
            ==> media.streams[s].index() == index,
        policy.action->selection is FirstCompatible ==> accepted(
            policy.compatibility,
            media.streams[s],
        ) && forall|k: int|
            0 <= k < s ==> !accepted(policy.compatibility, #[trigger] media.streams[k]),
        0 <= i < media.streams.len(),
    ensures
        accepted(policy.compatibility, media.streams[s]),
        !(media.streams[i] is Audio) ==> job.streams[i].dispositions()
            == media.streams[i].common().dispositions,
        media.streams[i] is Audio ==> same_but_default(
            job.streams[i].dispositions(),
            media.streams[i].common().dispositions,
        ),
        media.streams[i] is Audio ==> (job.streams[i].dispositions()["default"@] <==> i == s),
{
    let streams = media.streams;
    let rules = policy.compatibility;
    let candidates = plan::compatible_indices(streams, rules);
    match policy.action->selection {
        SelectorView::FirstCompatible => {
            lemma_first_candidate(streams, rules, s);
        },
        SelectorView::StreamIndex(index) => {
            lemma_candidate(streams, rules, index);
            let k = choose|k: int|
                0 <= k < streams.len() && plan::is_compatible(rules, #[trigger] streams[k])
                    && streams[k].index() == index;
            if s < k {
                assert(streams[s].index() != streams[k].index());
            } else if k < s {
                assert(streams[k].index() != streams[s].index());
            }
        },
    }
    assert(job.streams[i] == plan::remux_streams(streams, streams[s].index())[i]);
    if i < s {
        assert(streams[i].index() != streams[s].index());
    } else if s < i {
        assert(streams[s].index() != streams[i].index());
    }
}

proof fn lemma_first_candidate(streams: Seq<StreamInfoView>, policy: PolicyView, s: int)
    requires
        0 <= s < streams.len(),
        accepted(policy, streams[s]),
        forall|k: int| 0 <= k < s ==> !accepted(policy, #[trigger] streams[k]),
    ensures
        plan::compatible_indices(streams, policy).len() > 0,
        plan::compatible_indices(streams, policy)[0] == streams[s].index(),
    decreases streams.len(),
{
    let rest = streams.drop_last();
    if s < rest.len() {
        assert(rest[s] == streams[s]);
        assert forall|k: int| 0 <= k < s implies !accepted(policy, #[trigger] rest[k]) by {
            assert(rest[k] == streams[k]);
        }
        lemma_first_candidate(rest, policy, s);
    } else {
        assert forall|k: int| 0 <= k < rest.len() implies !accepted(policy, #[trigger] rest[k]) by {
            assert(rest[k] == streams[k]);
        }
        lemma_no_candidates(rest, policy);
        assert(streams.last() == streams[s]);
    }
}

proof fn lemma_no_candidates(streams: Seq<StreamInfoView>, policy: PolicyView)
    requires
        forall|k: int| 0 <= k < streams.len() ==> !accepted(policy, #[trigger] streams[k]),
    ensures
        plan::compatible_indices(streams, policy).len() == 0,
    decreases streams.len(),
{
    if streams.len() > 0 {
        let rest = streams.drop_last();
        assert forall|k: int| 0 <= k < rest.len() implies !accepted(policy, #[trigger] rest[k]) by {
            assert(rest[k] == streams[k]);
        }
        lemma_no_candidates(rest, policy);
        assert(streams.last() == streams[streams.len() - 1]);
    }
}

/// A remux of a file that can be planned for fails only where no audio is accepted, or where the
/// chosen index is not that of accepted audio.
pub proof fn law_remux_errors(media: MediaInfoView, policy: PlanningView)
    requires
        policy.action is RemuxOnly,
        plan::outcome(media, policy) matches Err(e) ==> e is NoCompatibleRemuxCandidate
            || e is InvalidRemuxSelection || e is NothingToDo,
    ensures
        ({
            let r = plan::outcome(media, policy);
            let some = exists|i: int|
                0 <= i < media.streams.len() && accepted(
                    policy.compatibility,
                    #[trigger] media.streams[i],
                );
            match policy.action->selection {
                SelectorView::FirstCompatible => {
                    &&& some <==> r is Ok && r->Ok_0 is Execute
                    &&& !some <==> r is Err && r->Err_0 is NoCompatibleRemuxCandidate
                },
                SelectorView::StreamIndex(index) => {
                    let chosen = exists|i: int|
                        0 <= i < media.streams.len() && accepted(
                            policy.compatibility,
                            #[trigger] media.streams[i],
                        ) && media.streams[i].index() == index;
                    &&& chosen <==> r is Ok && r->Ok_0 is Execute
                    &&& !chosen <==> r is Err && r->Err_0 is InvalidRemuxSelection
                },
            }
        }),
{
    let streams = media.streams;
    let rules = policy.compatibility;
    let candidates = plan::compatible_indices(streams, rules);
    assert forall|i: int| 0 <= i < streams.len() && accepted(rules, #[trigger] streams[i]) implies candidates.contains(
    streams[i].index()) by {
        lemma_is_candidate(streams, rules, i);
    }
    if candidates.len() > 0 {
        assert(candidates.contains(candidates[0]));
        lemma_candidate(streams, rules, candidates[0]);
        let k = choose|k: int|
            0 <= k < streams.len() && plan::is_compatible(rules, #[trigger] streams[k])
                && streams[k].index() == candidates[0];
        assert(accepted(rules, streams[k]));
    }
    if exists|i: int| 0 <= i < streams.len() && accepted(rules, #[trigger] streams[i]) {
        let i = choose|i: int| 0 <= i < streams.len() && accepted(rules, #[trigger] streams[i]);
        assert(candidates.contains(streams[i].index()));
    }
    if policy.action->selection is StreamIndex {
        let index = policy.action->selection->StreamIndex_0;
        if candidates.contains(index) {
            lemma_candidate(streams, rules, index);
            let k = choose|k: int|
                0 <= k < streams.len() && plan::is_compatible(rules, #[trigger] streams[k])
                    && streams[k].index() == index;
            assert(accepted(rules, streams[k]));
        }
    }
}

proof fn lemma_is_candidate(streams: Seq<StreamInfoView>, policy: PolicyView, i: int)
    requires
        0 <= i < streams.len(),
        accepted(policy, streams[i]),
    ensures
        plan::compatible_indices(streams, policy).contains(streams[i].index()),
    decreases streams.len(),
{
    let rest = streams.drop_last();
    let all = plan::compatible_indices(streams, policy);
    if i < rest.len() {
        assert(rest[i] == streams[i]);
        lemma_is_candidate(rest, policy, i);
        let fewer = plan::compatible_indices(rest, policy);
        let k = choose|k: int| 0 <= k < fewer.len() && fewer[k] == streams[i].index();
        assert(all[k] == streams[i].index());
    } else {
        assert(all[all.len() - 1] == streams[i].index());
    }
}

/// A plan tells what kind of work it is, how long its input is, that a profile is a conservative
/// baseline, and how many warnings the probe gave, where it gave any.
pub proof fn law_plan_facts(media: MediaInfoView, policy: PlanningView, job: JobPlanView)
    requires
        plans(media, policy, job),
    ensures
        job.duration == media.format.duration,
        policy.action is Convert ==> job.action == JobAction::Transcode,
        policy.action is RemuxOnly ==> job.action == JobAction::RemuxOnly,
        job.warnings.contains(PlanWarning::ConservativeCompatibilityProfile)
            <==> policy.compatibility.conservative_baseline,
        forall|count: usize|
            media.warnings.len() <= usize::MAX ==> (#[trigger] job.warnings.contains(
                PlanWarning::ProbeWarningsPresent { count },
            ) <==> count > 0 && count == media.warnings.len()),
{
    let w = job.warnings;
    if policy.compatibility.conservative_baseline {
        assert(w[0] == PlanWarning::ConservativeCompatibilityProfile);
    }
    if media.warnings.len() > 0 {
        assert(w[w.len() - 1] == (PlanWarning::ProbeWarningsPresent {
            count: media.warnings.len() as usize,
        }));
    }
}

/// Encoded audio is expected to be audio of the codec of the target, with the start and the duration
/// of its source and the metadata and flags that are written.
pub proof fn law_expected_of_encoded(
    media: MediaInfoView,
    policy: PlanningView,
    job: JobPlanView,
    j: int,
    i: int,
)
    requires
        media::indices_distinct(media.streams),
        plans(media, policy, job),
        0 <= j < job.streams.len(),
        job.streams[j] is EncodeAudio,
        0 <= i < media.streams.len(),
        media.streams[i].index() == job.streams[j].source(),
    ensures
        ({
            let wanted = job.expected.streams[j];
            &&& wanted.source == media.streams[i].index()
            &&& wanted.kind is Audio
            &&& wanted.timing == media.streams[i].common().timing
            &&& wanted.metadata == job.streams[j]->metadata
            &&& wanted.dispositions == job.streams[j].dispositions()
            &&& policy.target is Ac3 ==> wanted.codec == ExpectedCodecView::Encoded("AC-3"@)
            &&& policy.target is Eac3 ==> wanted.codec == ExpectedCodecView::Encoded("E-AC-3"@)
            &&& policy.target is Aac ==> wanted.codec == ExpectedCodecView::Encoded("AAC"@)
        }),
{
    lemma_encoded_source(media, policy, job, j, i);
    lemma_source_of(media.streams, i);
}

/// A copied stream is expected to be of its own kind, codec, start, duration and metadata, with the
/// flags that are written.
pub proof fn law_expected_of_copied(
    media: MediaInfoView,
    policy: PlanningView,
    job: JobPlanView,
    j: int,
    i: int,
)
    requires
        media::indices_distinct(media.streams),
        plans(media, policy, job),
        0 <= j < job.streams.len(),
        job.streams[j] is Copy,
        0 <= i < media.streams.len(),
        media.streams[i].index() == job.streams[j].source(),
    ensures
        ({
            let wanted = job.expected.streams[j];
            let source = media.streams[i];
            &&& wanted.source == source.index()
            &&& source is Video <==> wanted.kind is Video
            &&& source is Audio <==> wanted.kind is Audio
            &&& source is Subtitle <==> wanted.kind is Subtitle
            &&& source is Attachment <==> wanted.kind is Attachment
            &&& source is Data <==> wanted.kind is Data
            &&& source matches StreamInfoView::Unknown(s) ==> wanted.kind == KindView::Unknown(
                s.kind,
            )
            &&& wanted.codec == ExpectedCodecView::Copied(source.common().codec_name)
            &&& wanted.timing == source.common().timing
            &&& wanted.metadata == source.common().metadata
            &&& wanted.dispositions == job.streams[j].dispositions()
        }),
{
    lemma_source_of(media.streams, i);
}

} // verus!
