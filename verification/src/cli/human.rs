//! What is shown to people.
use vstd::prelude::*;

use crate::backend::{
    BackendCapabilities, BackendCapabilitiesView, BackendToolInfo, BackendToolInfoView,
    BackendToolRole, CapabilityCheck, CapabilityCheckView,
};
use crate::cli::dto;
use crate::media;
use crate::media::{MediaInfo, MediaInfoView};
use crate::model;
use crate::model::DurationMicros;
use crate::number;
use crate::plan::{JobAction, JobPlan, JobPlanView};
use crate::stream::{StreamInfo, StreamInfoView};
use crate::text;

verus! {

/// The duration of a file as it is shown.
pub open spec fn duration_text(duration: Option<u64>) -> Seq<char> {
    match duration {
        Some(us) => number::decimal(us as int) + " us"@,
        None => "unknown"@,
    }
}

/// A summary of a media file in one line.
pub open spec fn compact_text(media: MediaInfoView) -> Seq<char> {
    text::lossy(media.path) + ": "@ + number::decimal(media.streams.len() as int)
        + " stream(s), "@ + number::decimal(media::audio_of(media.streams).len() as int)
        + " audio, "@ + number::decimal(media.chapters.len() as int) + " chapter(s)"@
}

/// What is shown of a media file above its streams.
pub open spec fn heading_text(media: MediaInfoView) -> Seq<char> {
    text::lossy(media.path) + "\n  container: "@ + text::join(media.format.names, ", "@)
        + "\n  duration: "@ + duration_text(media.format.duration) + "\n  chapters: "@
        + number::decimal(media.chapters.len() as int) + "\n"@
}

/// What is shown of the codec of a stream.
pub open spec fn details_text(stream: StreamInfoView) -> Seq<char> {
    match stream {
        StreamInfoView::Audio(audio) => audio.codec.name() + "; "@ + number::decimal(
            audio.channels.count as int,
        ) + " ch"@ + match audio.channels.layout_name {
            Some(layout) => " "@ + layout,
            None => ""@,
        },
        _ => stream.common().codec_name,
    }
}

/// A text, or a dash where there is none.
pub open spec fn or_dash(value: Option<Seq<char>>) -> Seq<char> {
    match value {
        Some(s) => s,
        None => "-"@,
    }
}

/// A truth value as it is shown.
pub open spec fn bool_text(value: bool) -> Seq<char> {
    if value {
        "true"@
    } else {
        "false"@
    }
}

/// What is shown of a stream.
pub open spec fn stream_text(stream: StreamInfoView) -> Seq<char> {
    let common = stream.common();
    "  stream "@ + number::decimal(common.index as int) + ": "@ + dto::kind_of(stream) + "; "@
        + details_text(stream) + "; language="@ + or_dash(model::language_of(common.metadata))
        + "; title="@ + or_dash(model::lookup(common.metadata, "title"@)) + "; default="@ + bool_text(
        common.is_default(),
    ) + "\n"@
}

/// What is shown of streams, one line for each.
pub open spec fn streams_text(streams: Seq<StreamInfoView>) -> Seq<char>
    decreases streams.len(),
{
    if streams.len() == 0 {
        seq![]
    } else {
        streams_text(streams.drop_last()) + stream_text(streams.last())
    }
}

/// What is shown of a media file.
pub open spec fn probe_text(media: MediaInfoView, compact: bool) -> Seq<char> {
    if compact {
        compact_text(media)
    } else {
        text::trim_end(heading_text(media) + streams_text(media.streams))
    }
}

fn show_duration(duration: Option<DurationMicros>) -> (r: String)
    ensures
        r@ == duration_text(duration.deep_view()),
{
    match duration {
        Some(d) => text::concat2(number::show_u64(d.get()).as_str(), " us"),
        None => "unknown".to_owned(),
    }
}

fn show_bool(value: bool) -> (r: &'static str)
    ensures
        r@ == bool_text(value),
{
    if value {
        "true"
    } else {
        "false"
    }
}

fn show_details(stream: &StreamInfo) -> (r: String)
    ensures
        r@ == details_text(stream@),
{
    match stream {
        StreamInfo::Audio(audio) => {
            let mut out = audio.codec().show();
            text::push_text(&mut out, "; ");
            text::push_text(
                &mut out,
                number::show_u64(audio.channels().count().get() as u64).as_str(),
            );
            text::push_text(&mut out, " ch");
            match audio.channels().layout_name() {
                Some(layout) => {
                    let ghost before = out@;
                    text::push_text(&mut out, " ");
                    text::push_text(&mut out, layout);
                    proof {
                        assert(out@ =~= before + (" "@ + layout@));
                    }
                },
                None => {
                    proof {
                        reveal_strlit("");
                        assert(out@ + ""@ =~= out@);
                    }
                },
            }
            out
        },
        _ => stream.common().codec_name().to_owned(),
    }
}

fn show_stream(stream: &StreamInfo) -> (r: String)
    ensures
        r@ == stream_text(stream@),
{
    let common = stream.common();
    let mut out = text::concat3(
        "  stream ",
        number::show_u64(stream.index().get() as u64).as_str(),
        ": ",
    );
    text::push_text(&mut out, dto::stream_kind(stream));
    text::push_text(&mut out, "; ");
    text::push_text(&mut out, show_details(stream).as_str());
    text::push_text(&mut out, "; language=");
    match common.metadata().language() {
        Some(language) => text::push_text(&mut out, language.as_str()),
        None => text::push_text(&mut out, "-"),
    }
    text::push_text(&mut out, "; title=");
    match common.metadata().title() {
        Some(title) => text::push_text(&mut out, title),
        None => text::push_text(&mut out, "-"),
    }
    text::push_text(&mut out, "; default=");
    text::push_text(&mut out, show_bool(common.dispositions().is_default()));
    text::push_text(&mut out, "\n");
    out
}

/// Shows a media file.
pub fn probe(media: &MediaInfo, compact: bool) -> (r: String)
    ensures
        r@ == probe_text(media@, compact),
{
    let streams = media.streams();
    let chapters: usize = media.chapters().len();
    let ghost all = media@.streams;
    if compact {
        let audio: usize = media.audio_streams().len();
        let mut line = text::concat3(
            media.path().display().as_str(),
            ": ",
            number::show_usize(streams.len()).as_str(),
        );
        text::push_text(&mut line, " stream(s), ");
        text::push_text(&mut line, number::show_usize(audio).as_str());
        text::push_text(&mut line, " audio, ");
        text::push_text(&mut line, number::show_usize(chapters).as_str());
        text::push_text(&mut line, " chapter(s)");
        return line;
    }
    let mut out = text::concat3(
        media.path().display().as_str(),
        "\n  container: ",
        text::joined(media.format().names(), ", ").as_str(),
    );
    text::push_text(&mut out, "\n  duration: ");
    text::push_text(&mut out, show_duration(media.format().duration()).as_str());
    text::push_text(&mut out, "\n  chapters: ");
    text::push_text(&mut out, number::show_usize(chapters).as_str());
    text::push_text(&mut out, "\n");
    let ghost heading = heading_text(media@);
    let mut i: usize = 0;
    proof {
        assert(all.take(0) =~= seq![]);
        assert(heading + streams_text(all.take(0)) =~= heading);
    }
    while i < streams.len()
        invariant
            all == streams.deep_view(),
            i <= streams@.len(),
            out@ == heading + streams_text(all.take(i as int)),
        decreases streams@.len() - i,
    {
        proof {
            assert(all.take(i + 1).drop_last() =~= all.take(i as int));
            assert(all[i as int] == streams@[i as int]@);
        }
        text::push_text(&mut out, show_stream(&streams[i]).as_str());
        proof {
            assert(out@ =~= heading + streams_text(all.take(i + 1)));
        }
        i = i + 1;
    }
    proof {
        assert(all.take(i as int) =~= all);
    }
    text::trimmed_end(out.as_str())
}

/// What is shown of a plan.
pub open spec fn plan_text(plan: JobPlanView) -> Seq<char> {
    text::lossy(plan.input) + " -> "@ + text::lossy(plan.output) + ": "@ + match plan.action {
        JobAction::Transcode => "Transcode"@,
        JobAction::RemuxOnly => "RemuxOnly"@,
    } + ", "@ + number::decimal(plan.streams.len() as int) + " stream(s), "@ + number::decimal(
        dto::encoded(plan.streams) as int,
    ) + " encoded audio stream(s)"@
}

/// Shows a plan.
pub fn plan(job: &JobPlan) -> (r: String)
    ensures
        r@ == plan_text(job@),
{
    let mut out = text::concat3(
        job.input().display().as_str(),
        " -> ",
        job.output().display().as_str(),
    );
    text::push_text(&mut out, ": ");
    match job.action() {
        JobAction::Transcode => text::push_text(&mut out, "Transcode"),
        JobAction::RemuxOnly => text::push_text(&mut out, "RemuxOnly"),
    }
    text::push_text(&mut out, ", ");
    text::push_text(&mut out, number::show_usize(job.streams().len()).as_str());
    text::push_text(&mut out, " stream(s), ");
    text::push_text(&mut out, number::show_usize(dto::count_encoded(job.streams())).as_str());
    text::push_text(&mut out, " encoded audio stream(s)");
    out
}

/// What is shown of a tool.
pub open spec fn tool_text(tool: BackendToolInfoView, print_paths: bool) -> Seq<char> {
    "  "@ + match tool.role {
        BackendToolRole::Ffmpeg => "Ffmpeg"@,
        BackendToolRole::Ffprobe => "Ffprobe"@,
    } + ": "@ + match tool.version {
        Some(version) => version,
        None => "unknown version"@,
    } + if print_paths {
        " ("@ + text::lossy(tool.path) + ")\n"@
    } else {
        "\n"@
    }
}

/// What is shown of tools, one line for each.
pub open spec fn tools_text(tools: Seq<BackendToolInfoView>, print_paths: bool) -> Seq<char>
    decreases tools.len(),
{
    if tools.len() == 0 {
        seq![]
    } else {
        tools_text(tools.drop_last(), print_paths) + tool_text(tools.last(), print_paths)
    }
}

/// What is shown of something that was looked for.
pub open spec fn check_text(check: CapabilityCheckView) -> Seq<char> {
    "  ["@ + if check.available {
        "ok"@
    } else {
        "missing"@
    } + "] "@ + check.capability.kind() + " "@ + check.capability.name() + "\n"@
}

/// What is shown of what was looked for, one line for each.
pub open spec fn checks_text(checks: Seq<CapabilityCheckView>) -> Seq<char>
    decreases checks.len(),
{
    if checks.len() == 0 {
        seq![]
    } else {
        checks_text(checks.drop_last()) + check_text(checks.last())
    }
}

/// What is shown of warnings, one line for each.
pub open spec fn warnings_text(warnings: Seq<Seq<char>>) -> Seq<char>
    decreases warnings.len(),
{
    if warnings.len() == 0 {
        seq![]
    } else {
        warnings_text(warnings.drop_last()) + ("  warning: "@ + warnings.last() + "\n"@)
    }
}

/// What is shown of a backend.
pub open spec fn doctor_text(report: BackendCapabilitiesView, print_paths: bool) -> Seq<char> {
    text::trim_end(
        "Backend: "@ + report.backend_name + "\n"@ + tools_text(report.tools, print_paths)
            + checks_text(report.checks) + warnings_text(report.warnings),
    )
}

fn show_tool(tool: &BackendToolInfo, print_paths: bool) -> (r: String)
    ensures
        r@ == tool_text(tool@, print_paths),
{
    let mut out = "  ".to_owned();
    match tool.role() {
        BackendToolRole::Ffmpeg => text::push_text(&mut out, "Ffmpeg"),
        BackendToolRole::Ffprobe => text::push_text(&mut out, "Ffprobe"),
    }
    text::push_text(&mut out, ": ");
    match tool.version() {
        Some(version) => text::push_text(&mut out, version),
        None => text::push_text(&mut out, "unknown version"),
    }
    if print_paths {
        let place = text::concat3(" (", tool.path().display().as_str(), ")\n");
        text::push_text(&mut out, place.as_str());
    } else {
        text::push_text(&mut out, "\n");
    }
    out
}

fn show_check(check: &CapabilityCheck) -> (r: String)
    ensures
        r@ == check_text(check@),
{
    let state = if check.available() {
        "ok"
    } else {
        "missing"
    };
    let mut out = text::concat3("  [", state, "] ");
    text::push_text(&mut out, check.capability().kind());
    text::push_text(&mut out, " ");
    text::push_text(&mut out, check.capability().name());
    text::push_text(&mut out, "\n");
    out
}

fn show_tools(tools: &Vec<BackendToolInfo>, print_paths: bool) -> (r: String)
    ensures
        r@ == tools_text(tools.deep_view(), print_paths),
{
    let ghost all = tools.deep_view();
    let mut out = String::new();
    let mut i: usize = 0;
    proof {
        assert(all.take(0) =~= seq![]);
        assert(out@ =~= tools_text(all.take(0), print_paths));
    }
    while i < tools.len()
        invariant
            all == tools.deep_view(),
            i <= tools@.len(),
            out@ == tools_text(all.take(i as int), print_paths),
        decreases tools@.len() - i,
    {
        proof {
            assert(all.take(i + 1).drop_last() =~= all.take(i as int));
            assert(all[i as int] == tools@[i as int]@);
        }
        text::push_text(&mut out, show_tool(&tools[i], print_paths).as_str());
        i = i + 1;
    }
    proof {
        assert(all.take(i as int) =~= all);
    }
    out
}

fn show_checks(checks: &Vec<CapabilityCheck>) -> (r: String)
    ensures
        r@ == checks_text(checks.deep_view()),
{
    let ghost all = checks.deep_view();
    let mut out = String::new();
    let mut i: usize = 0;
    proof {
        assert(all.take(0) =~= seq![]);
        assert(out@ =~= checks_text(all.take(0)));
    }
    while i < checks.len()
        invariant
            all == checks.deep_view(),
            i <= checks@.len(),
            out@ == checks_text(all.take(i as int)),
        decreases checks@.len() - i,
    {
        proof {
            assert(all.take(i + 1).drop_last() =~= all.take(i as int));
            assert(all[i as int] == checks@[i as int]@);
        }
        text::push_text(&mut out, show_check(&checks[i]).as_str());
        i = i + 1;
    }
    proof {
        assert(all.take(i as int) =~= all);
    }
    out
}

fn show_warnings(warnings: &Vec<String>) -> (r: String)
    ensures
        r@ == warnings_text(warnings.deep_view()),
{
    let ghost all = warnings.deep_view();
    let mut out = String::new();
    let mut i: usize = 0;
    proof {
        assert(all.take(0) =~= seq![]);
        assert(out@ =~= warnings_text(all.take(0)));
    }
    while i < warnings.len()
        invariant
            all == warnings.deep_view(),
            i <= warnings@.len(),
            out@ == warnings_text(all.take(i as int)),
        decreases warnings@.len() - i,
    {
        proof {
            assert(all.take(i + 1).drop_last() =~= all.take(i as int));
            assert(all[i as int] == warnings@[i as int]@);
        }
        let line = text::concat3("  warning: ", warnings[i].as_str(), "\n");
        text::push_text(&mut out, line.as_str());
        i = i + 1;
    }
    proof {
        assert(all.take(i as int) =~= all);
    }
    out
}

/// Shows what a backend can do.
pub fn doctor(report: &BackendCapabilities, print_paths: bool) -> (r: String)
    ensures
        r@ == doctor_text(report@, print_paths),
{
    let mut out = text::concat3("Backend: ", report.backend_name(), "\n");
    text::push_text(&mut out, show_tools(report.tools(), print_paths).as_str());
    text::push_text(&mut out, show_checks(report.checks()).as_str());
    text::push_text(&mut out, show_warnings(report.warnings()).as_str());
    text::trimmed_end(out.as_str())
}

} // verus!
