//! What holds of the inspection of the external tools.
use vstd::prelude::*;
use vstd::utf8::encode_utf8;

use crate::backend::{BackendToolRole, MediaCapabilityView};
use crate::ffmpeg::capabilities;
use crate::ffmpeg::capabilities::{AnswersView, Diagnostic};
use crate::ffmpeg::error::ToolErrorView;
use crate::ffmpeg::probe::CliBackendView;
use crate::path;
use crate::text;

verus! {

/// Whether a line of a codec table is about this codec: its first word holds at least six bytes of
/// flags, and its second word is the name, whatever its case.
pub open spec fn is_about(line: Seq<char>, name: Seq<char>) -> bool {
    let words = text::words(line);
    words.len() >= 2 && encode_utf8(words[0]).len() >= 6 && text::lower(words[1]) == text::lower(
        name,
    )
}

/// A codec is listed where a line of the table is about it. Only DTS has another name in the table.
pub proof fn law_listed_codecs(output: Seq<char>, name: Seq<char>, dts_alias: Seq<char>)
    requires
        name.len() > 0,
        dts_alias.len() > 0,
    ensures
        text::lower(name) != "dts"@ ==> (capabilities::codec_listed(output, name, dts_alias) <==> (
        exists|i: int|
            0 <= i < text::split(output, '\n').len() && is_about(
                #[trigger] text::split(output, '\n')[i],
                name,
            ))),
        text::lower(name) == "dts"@ ==> (capabilities::codec_listed(output, name, dts_alias) <==> (
        exists|i: int|
            0 <= i < text::split(output, '\n').len() && is_about(
                #[trigger] text::split(output, '\n')[i],
                dts_alias,
            ))),
{
    let lines = text::split(output, '\n');
    let sought = if text::lower(name) == "dts"@ {
        dts_alias
    } else {
        name
    };
    assert(capabilities::table_name(name, dts_alias) == sought);
    assert(text::lower(sought).len() > 0);
    assert forall|i: int| 0 <= i < lines.len() implies capabilities::codec_line(lines[i], sought)
        == is_about(#[trigger] lines[i], sought) by {
        let second = capabilities::field(lines[i], 1);
        assert(text::lower(second).len() == second.len());
    }
    if capabilities::codec_listed(output, name, dts_alias) {
        let i = choose|i: int|
            0 <= i < lines.len() && #[trigger] capabilities::codec_line(lines[i], sought);
        assert(is_about(lines[i], sought));
    }
    if exists|i: int| 0 <= i < lines.len() && is_about(#[trigger] lines[i], sought) {
        let i = choose|i: int| 0 <= i < lines.len() && is_about(#[trigger] lines[i], sought);
        assert(capabilities::codec_line(lines[i], sought));
    }
}

/// Whether a line of a container table has this flag and names this container among its names, which
/// commas part, whatever their case.
pub open spec fn holds_container(line: Seq<char>, name: Seq<char>, flag: char) -> bool {
    let words = text::words(line);
    words.len() >= 2 && words[0].contains(flag) && exists|k: int|
        0 <= k < text::split(words[1], ',').len() && text::lower(
            #[trigger] text::split(words[1], ',')[k],
        ) == text::lower(name)
}

/// A container is listed where a line of the table has the flag that is asked for and names it.
pub proof fn law_listed_containers(output: Seq<char>, name: Seq<char>, flag: char)
    requires
        name.len() > 0,
    ensures
        capabilities::format_listed(output, name, flag) <==> exists|i: int|
            0 <= i < text::split(output, '\n').len() && holds_container(
                #[trigger] text::split(output, '\n')[i],
                name,
                flag,
            ),
{
    let lines = text::split(output, '\n');
    assert forall|i: int| 0 <= i < lines.len() implies capabilities::format_line(
        lines[i],
        name,
        flag,
    ) == holds_container(#[trigger] lines[i], name, flag) by {
        lemma_container_line(lines[i], name, flag);
    }
    if capabilities::format_listed(output, name, flag) {
        let i = choose|i: int|
            0 <= i < lines.len() && #[trigger] capabilities::format_line(lines[i], name, flag);
        assert(holds_container(lines[i], name, flag));
    }
    if exists|i: int| 0 <= i < lines.len() && holds_container(#[trigger] lines[i], name, flag) {
        let i = choose|i: int|
            0 <= i < lines.len() && holds_container(#[trigger] lines[i], name, flag);
        assert(capabilities::format_line(lines[i], name, flag));
    }
}

proof fn lemma_container_line(line: Seq<char>, name: Seq<char>, flag: char)
    requires
        name.len() > 0,
    ensures
        capabilities::format_line(line, name, flag) == holds_container(line, name, flag),
{
    let words = text::words(line);
    if words.len() >= 2 {
        let names = text::split(words[1], ',');
        assert(capabilities::field(line, 1) == words[1]);
        if capabilities::format_line(line, name, flag) {
            let k = choose|k: int|
                0 <= k < names.len() && #[trigger] text::lower(names[k]) == text::lower(name);
            assert(text::lower(names[k]) == text::lower(name));
        }
        if holds_container(line, name, flag) {
            let k = choose|k: int|
                0 <= k < names.len() && text::lower(#[trigger] names[k]) == text::lower(name);
            assert(text::lower(names[k]) == text::lower(name));
        }
    } else {
        let empty = Seq::<char>::empty();
        assert(capabilities::field(line, 1) =~= empty);
        assert(!empty.contains(','));
        assert forall|k: int| 0 <= k < text::split(empty, ',').len() implies #[trigger] text::lower(
            text::split(empty, ',')[k],
        ) != text::lower(name) by {
            assert(text::split(empty, ',')[k].len() == 0);
            assert(text::lower(text::split(empty, ',')[k]).len() == 0);
            assert(text::lower(name).len() > 0);
        }
    }
}

/// What can be decoded is looked up among the decoders, with DTS as `dca`; what can be encoded among
/// the encoders, DTS included; what can be read and written among the containers, by the flags `D`
/// and `E`.
pub proof fn law_where_capabilities_are_looked_up(answers: AnswersView, name: Seq<char>)
    ensures
        capabilities::offered(answers, MediaCapabilityView::Decoder(name)) == (if text::lower(name)
            == "dts"@ {
            capabilities::codec_listed(answers.decoders, "dca"@, "dca"@)
        } else {
            capabilities::codec_listed(answers.decoders, name, name)
        }),
        capabilities::offered(answers, MediaCapabilityView::Encoder(name))
            == capabilities::codec_listed(answers.encoders, name, name),
        capabilities::offered(answers, MediaCapabilityView::Demuxer(name))
            == capabilities::format_listed(answers.formats, name, 'D'),
        capabilities::offered(answers, MediaCapabilityView::Muxer(name))
            == capabilities::format_listed(answers.formats, name, 'E'),
{
    let lines = text::split(answers.decoders, '\n');
    let sought = if text::lower(name) == "dts"@ {
        "dca"@
    } else {
        name
    };
    assert(capabilities::table_name(name, name) == name);
    assert(capabilities::table_name("dca"@, "dca"@) == "dca"@);
    assert(capabilities::table_name(name, "dca"@) == sought);
}

/// The line that tells which tool it is, is the first that is not blank, without the white space
/// around it and cut to 512 characters.
pub proof fn law_first_line(lines: Seq<Seq<char>>, i: int)
    requires
        0 <= i < lines.len(),
        text::trim(lines[i]).len() > 0,
        forall|k: int| 0 <= k < i ==> text::trim(#[trigger] lines[k]).len() == 0,
    ensures
        capabilities::first_text(lines) == Some(text::shortened(text::trim(lines[i]), 512)),
    decreases i,
{
    if i > 0 {
        assert(text::trim(lines[0]).len() == 0);
        let rest = lines.drop_first();
        assert forall|k: int| 0 <= k < i - 1 implies text::trim(#[trigger] rest[k]).len() == 0 by {
            assert(rest[k] == lines[k + 1]);
        }
        law_first_line(rest, i - 1);
    }
}

/// Blank output tells no version; a version is the third word of its line.
pub proof fn law_versions(lines: Seq<Seq<char>>, line: Seq<char>)
    ensures
        (forall|k: int| 0 <= k < lines.len() ==> text::trim(#[trigger] lines[k]).len() == 0)
            ==> capabilities::first_text(lines) is None,
        text::words(line).len() >= 3 ==> capabilities::version_word(Some(line)) == Some(
            text::words(line)[2],
        ),
        text::words(line).len() < 3 ==> capabilities::version_word(Some(line)) is None,
        capabilities::version_word(None) is None,
    decreases lines.len(),
{
    if lines.len() > 0 && forall|k: int|
        0 <= k < lines.len() ==> text::trim(#[trigger] lines[k]).len() == 0 {
        let rest = lines.drop_first();
        assert(text::trim(lines[0]).len() == 0);
        assert forall|k: int| 0 <= k < rest.len() implies text::trim(#[trigger] rest[k]).len()
            == 0 by {
            assert(rest[k] == lines[k + 1]);
        }
        law_versions(rest, line);
    }
}

/// What a tool printed is its answer where it succeeded; a failure gives what it complained of, and
/// more than 4 MiB of both is refused whatever the exit.
pub proof fn law_answers(name: Seq<char>, success: bool, stdout: Seq<u8>, stderr: Seq<u8>)
    ensures
        ({
            let answer = capabilities::answer(name, success, stdout, stderr);
            let long = stdout.len() + stderr.len() > 4 * 1_024 * 1_024;
            &&& answer is Ok <==> success && !long
            &&& success && !long ==> answer->Ok_0 == text::lossy(stdout)
            &&& !success && !long ==> answer == Err::<Seq<char>, _>(
                ToolErrorView::DiagnosticFailed {
                    name,
                    stderr: text::shortened(text::lossy(stderr), 512),
                },
            )
            &&& long ==> answer->Err_0 is Protocol
        }),
{
}

/// What the tools are asked: each for its version, the converter also for its decoders, encoders and
/// containers.
pub proof fn law_questions()
    ensures
        Diagnostic::FfmpegVersion.role() == BackendToolRole::Ffmpeg,
        Diagnostic::FfprobeVersion.role() == BackendToolRole::Ffprobe,
        Diagnostic::Decoders.role() == BackendToolRole::Ffmpeg,
        Diagnostic::Encoders.role() == BackendToolRole::Ffmpeg,
        Diagnostic::Formats.role() == BackendToolRole::Ffmpeg,
        Diagnostic::FfmpegVersion.words() == seq!["-version"@],
        Diagnostic::FfprobeVersion.words() == seq!["-version"@],
        Diagnostic::Decoders.words() == seq!["-hide_banner"@, "-decoders"@],
        Diagnostic::Encoders.words() == seq!["-hide_banner"@, "-encoders"@],
        Diagnostic::Formats.words() == seq!["-hide_banner"@, "-formats"@],
{
}

/// A report names both tools with their places and versions and answers every question in its place.
pub proof fn law_reports(
    tools: CliBackendView,
    required: Seq<MediaCapabilityView>,
    answers: AnswersView,
    i: int,
)
    requires
        0 <= i < required.len(),
    ensures
        ({
            let report = capabilities::report_of(tools, required, answers);
            let first = capabilities::first_text(text::split(answers.ffmpeg_version, '\n'));
            let second = capabilities::first_text(text::split(answers.ffprobe_version, '\n'));
            &&& report.tools.len() == 2
            &&& report.tools[0].role == BackendToolRole::Ffmpeg
            &&& report.tools[0].path == tools.ffmpeg_path
            &&& report.tools[0].version == first
            &&& report.tools[1].role == BackendToolRole::Ffprobe
            &&& report.tools[1].path == tools.ffprobe_path
            &&& report.tools[1].version == second
            &&& report.checks.len() == required.len()
            &&& report.checks[i].capability == required[i]
            &&& report.checks[i].available == capabilities::offered(answers, required[i])
        }),
{
}

/// Tools in different directories are warned of, and so are tools of different versions; a pair that
/// belongs together gives no warning.
pub proof fn law_mixed_pairs(tools: CliBackendView, answers: AnswersView)
    ensures
        ({
            let warnings = capabilities::pair_warnings(tools, answers);
            let first = capabilities::version_word(
                capabilities::first_text(text::split(answers.ffmpeg_version, '\n')),
            );
            let second = capabilities::version_word(
                capabilities::first_text(text::split(answers.ffprobe_version, '\n')),
            );
            let together = match (
                path::parent(tools.ffmpeg_path),
                path::parent(tools.ffprobe_path),
            ) {
                (Some(a), Some(b)) => path::same_path(a, b),
                (None, None) => true,
                _ => false,
            };
            &&& warnings.len() == 0 <==> together && first == second
            &&& !together ==> warnings[0]
                == "ffmpeg and ffprobe resolve from different directories"@
            &&& first != second ==> warnings.last()
                == "ffmpeg and ffprobe report different leading versions"@
            &&& !together && first != second ==> warnings.len() == 2
            &&& together || first == second ==> warnings.len() <= 1
        }),
{
}

} // verus!
