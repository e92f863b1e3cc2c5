//! What holds of the texts that people read.
use vstd::prelude::*;

use crate::backend::{BackendToolInfoView, CapabilityCheckView};
use crate::cli::dto;
use crate::cli::human;
use crate::media;
use crate::media::MediaInfoView;
use crate::number;
use crate::plan::JobPlanView;
use crate::stream::StreamInfoView;
use crate::text;

verus! {

/// Every stream has its line, after those before it; so has every tool, every check and every
/// warning.
pub proof fn law_lines_follow_in_order(
    streams: Seq<StreamInfoView>,
    stream: StreamInfoView,
    tools: Seq<BackendToolInfoView>,
    tool: BackendToolInfoView,
    checks: Seq<CapabilityCheckView>,
    check: CapabilityCheckView,
    warnings: Seq<Seq<char>>,
    warning: Seq<char>,
    paths: bool,
)
    ensures
        human::streams_text(Seq::empty()).len() == 0,
        human::tools_text(Seq::empty(), paths).len() == 0,
        human::checks_text(Seq::empty()).len() == 0,
        human::warnings_text(Seq::empty()).len() == 0,
        human::streams_text(streams.push(stream)) == human::streams_text(streams)
            + human::stream_text(stream),
        human::tools_text(tools.push(tool), paths) == human::tools_text(tools, paths)
            + human::tool_text(tool, paths),
        human::checks_text(checks.push(check)) == human::checks_text(checks) + human::check_text(
            check,
        ),
        human::warnings_text(warnings.push(warning)) == human::warnings_text(warnings) + (
        "  warning: "@ + warning + "\n"@),
{
    assert(streams.push(stream).drop_last() =~= streams);
    assert(tools.push(tool).drop_last() =~= tools);
    assert(checks.push(check).drop_last() =~= checks);
    assert(warnings.push(warning).drop_last() =~= warnings);
}

/// In short a file is told by its path and by how many streams, audio streams and chapters it has.
pub proof fn law_short_texts_count(media: MediaInfoView)
    ensures
        human::probe_text(media, true) == text::lossy(media.path) + ": "@ + number::decimal(
            media.streams.len() as int,
        ) + " stream(s), "@ + number::decimal(media::audio_of(media.streams).len() as int)
            + " audio, "@ + number::decimal(media.chapters.len() as int) + " chapter(s)"@,
{
}

/// A plan is told by its input, its output, its kind and by how many streams it has and encodes.
pub proof fn law_plan_texts_count(plan: JobPlanView)
    ensures
        ({
            let rest = ", "@ + number::decimal(plan.streams.len() as int) + " stream(s), "@
                + number::decimal(dto::encoded(plan.streams) as int) + " encoded audio stream(s)"@;
            let files = text::lossy(plan.input) + " -> "@ + text::lossy(plan.output) + ": "@;
            &&& plan.action is Transcode ==> human::plan_text(plan) == files + "Transcode"@ + rest
            &&& plan.action is RemuxOnly ==> human::plan_text(plan) == files + "RemuxOnly"@ + rest
        }),
{
    let files = text::lossy(plan.input) + " -> "@ + text::lossy(plan.output) + ": "@;
    let rest = ", "@ + number::decimal(plan.streams.len() as int) + " stream(s), "@
        + number::decimal(dto::encoded(plan.streams) as int) + " encoded audio stream(s)"@;
    if plan.action is Transcode {
        assert(human::plan_text(plan) =~= files + "Transcode"@ + rest);
    } else {
        assert(human::plan_text(plan) =~= files + "RemuxOnly"@ + rest);
    }
}

/// What is needed is marked as there or as missing.
pub proof fn law_check_texts(check: CapabilityCheckView)
    ensures
        check.available ==> human::check_text(check) == "  ["@ + "ok"@ + "] "@
            + check.capability.kind() + " "@ + check.capability.name() + "\n"@,
        !check.available ==> human::check_text(check) == "  ["@ + "missing"@ + "] "@
            + check.capability.kind() + " "@ + check.capability.name() + "\n"@,
{
}

/// A duration is told in microseconds, or as unknown; what there is not is told by a dash.
pub proof fn law_small_texts(us: u64, value: Seq<char>)
    ensures
        human::duration_text(Some(us)) == number::decimal(us as int) + " us"@,
        human::duration_text(None) == "unknown"@,
        human::or_dash(Some(value)) == value,
        human::or_dash(None) == "-"@,
        human::bool_text(true) == "true"@,
        human::bool_text(false) == "false"@,
{
}

} // verus!
