//! What holds of what is told.
use vstd::prelude::*;
use vstd::utf8::*;

use crate::backend::{BackendCapabilitiesView, BackendToolRole};
use crate::cli::dto;
use crate::media::MediaInfoView;
use crate::model;
use crate::plan::{JobPlanView, OperationView};
use crate::stream::StreamInfoView;
use crate::text;

verus! {

/// A byte is told by two hexadecimal digits in lowercase, the greater first.
pub proof fn law_hex_digits(bytes: Seq<u8>, i: int)
    requires
        0 <= i < bytes.len(),
    ensures
        ({
            let digits = dto::hex(bytes);
            let high = digits[2 * i];
            let low = digits[2 * i + 1];
            &&& digits.len() == 2 * bytes.len()
            &&& hex_value(high) is Some
            &&& hex_value(low) is Some
            &&& hex_value(high)->0 * 16 + hex_value(low)->0 == bytes[i]
        }),
{
    assert((2 * i) / 2 == i && (2 * i) % 2 == 0);
    assert((2 * i + 1) / 2 == i && (2 * i + 1) % 2 == 1);
}

/// What a hexadecimal digit in lowercase stands for.
pub open spec fn hex_value(c: char) -> Option<int> {
    if '0' <= c <= '9' {
        Some(c as int - 48)
    } else if 'a' <= c <= 'f' {
        Some(c as int - 87)
    } else {
        None
    }
}

/// A path is told by a text to show and by its bytes, which are said to be UTF-8 where they are.
pub proof fn law_paths_are_told(path: Seq<u8>)
    ensures
        ({
            let told = dto::path_told(path);
            &&& told.display == text::lossy(path)
            &&& told.native_hex == dto::hex(path)
            &&& valid_utf8(path) ==> told.native_encoding == "utf-8"@
            &&& !valid_utf8(path) ==> told.native_encoding == "unix-bytes"@
        }),
{
}

/// A wide unit is told by two bytes, the lesser first.
pub proof fn law_units_are_little_endian(units: Seq<u16>, i: int)
    requires
        0 <= i < units.len(),
    ensures
        dto::unit_bytes(units).len() == 2 * units.len(),
        dto::unit_bytes(units)[2 * i] + 256 * dto::unit_bytes(units)[2 * i + 1] == units[i],
    decreases units.len(),
{
    let rest = units.drop_last();
    lemma_unit_bytes(rest);
    if i < rest.len() {
        law_units_are_little_endian(rest, i);
        assert(rest[i] == units[i]);
    }
}

proof fn lemma_unit_bytes(units: Seq<u16>)
    ensures
        dto::unit_bytes(units).len() == 2 * units.len(),
    decreases units.len(),
{
    if units.len() > 0 {
        lemma_unit_bytes(units.drop_last());
    }
}

/// What is told of a stream: its facts, and only of audio its channels and their layout.
pub proof fn law_streams_are_told(stream: StreamInfoView)
    ensures
        ({
            let told = dto::stream_told(stream);
            let common = stream.common();
            &&& told.index == common.index
            &&& told.bitrate_bps == common.bitrate
            &&& told.language == model::language_of(common.metadata)
            &&& told.title is Some <==> common.metadata.dom().contains("title"@)
            &&& told.title matches Some(t) ==> t == common.metadata["title"@]
            &&& told.default == common.is_default()
            &&& stream is Video ==> told.kind == "video"@
            &&& stream is Audio ==> told.kind == "audio"@
            &&& stream is Subtitle ==> told.kind == "subtitle"@
            &&& stream is Attachment ==> told.kind == "attachment"@
            &&& stream is Data ==> told.kind == "data"@
            &&& stream matches StreamInfoView::Unknown(other) ==> told.kind == other.kind
            &&& !(stream is Audio) ==> told.channels is None && told.layout is None && told.codec
                == common.codec_name
            &&& stream matches StreamInfoView::Audio(audio) ==> told.channels == Some(
                audio.channels.count,
            ) && told.layout == audio.channels.layout_name && told.codec == audio.codec.name()
        }),
{
}

/// What is told of a file: every stream in its order, and how many chapters and warnings there are.
pub proof fn law_files_are_told(media: MediaInfoView)
    requires
        media.chapters.len() <= usize::MAX,
        media.warnings.len() <= usize::MAX,
    ensures
        ({
            let told = dto::media_told(media);
            &&& told.path == dto::path_told(media.path)
            &&& told.formats == media.format.names
            &&& told.duration_us == media.format.duration
            &&& told.bitrate_bps == media.format.bitrate
            &&& told.chapters == media.chapters.len()
            &&& told.warnings == media.warnings.len()
            &&& told.streams.len() == media.streams.len()
            &&& forall|i: int|
                0 <= i < media.streams.len() ==> #[trigger] told.streams[i] == dto::stream_told(
                    media.streams[i],
                )
        }),
{
}

/// Streams that are encoded count, one each, and no others.
pub proof fn law_encoded_streams_count(streams: Seq<OperationView>, stream: OperationView)
    ensures
        dto::encoded(Seq::empty()) == 0,
        stream is EncodeAudio ==> dto::encoded(streams.push(stream)) == dto::encoded(streams) + 1,
        !(stream is EncodeAudio) ==> dto::encoded(streams.push(stream)) == dto::encoded(streams),
        dto::encoded(streams) <= streams.len(),
    decreases streams.len(),
{
    assert(streams.push(stream).drop_last() =~= streams);
    if streams.len() > 0 {
        law_encoded_streams_count(streams.drop_last(), streams.last());
    }
}

/// What is told of a plan.
pub proof fn law_plans_are_told(plan: JobPlanView)
    requires
        plan.streams.len() <= usize::MAX,
    ensures
        ({
            let told = dto::plan_told(plan);
            &&& told.input == dto::path_told(plan.input)
            &&& told.output == dto::path_told(plan.output)
            &&& plan.action is Transcode ==> told.action == "transcode"@
            &&& plan.action is RemuxOnly ==> told.action == "remux"@
            &&& told.duration_us == plan.duration
            &&& told.streams == plan.streams.len()
            &&& told.encoded_audio_streams == dto::encoded(plan.streams)
        }),
{
    if plan.streams.len() > 0 {
        law_encoded_streams_count(plan.streams, plan.streams[0]);
    }
}

/// What is told of the tools: they are healthy exactly where all that is needed is there.
pub proof fn law_reports_are_told(report: BackendCapabilitiesView, i: int)
    ensures
        ({
            let told = dto::doctor_told(report);
            &&& told.backend == report.backend_name
            &&& told.healthy <==> forall|k: int|
                0 <= k < report.checks.len() ==> (#[trigger] report.checks[k]).available
            &&& told.warnings == report.warnings
            &&& told.tools.len() == report.tools.len()
            &&& told.checks.len() == report.checks.len()
            &&& 0 <= i < report.tools.len() ==> {
                &&& told.tools[i].path == dto::path_told(report.tools[i].path)
                &&& told.tools[i].version == report.tools[i].version
                &&& report.tools[i].role == BackendToolRole::Ffmpeg ==> told.tools[i].role
                    == "ffmpeg"@
                &&& report.tools[i].role == BackendToolRole::Ffprobe ==> told.tools[i].role
                    == "ffprobe"@
            }
            &&& 0 <= i < report.checks.len() ==> {
                let check = report.checks[i];
                &&& told.checks[i].available == check.available
                &&& told.checks[i].detail == check.detail
                &&& check.capability is Decoder ==> told.checks[i].kind == "decoder"@
                    && told.checks[i].name == check.capability->Decoder_0
                &&& check.capability is Encoder ==> told.checks[i].kind == "encoder"@
                    && told.checks[i].name == check.capability->Encoder_0
                &&& check.capability is Demuxer ==> told.checks[i].kind == "demuxer"@
                    && told.checks[i].name == check.capability->Demuxer_0
                &&& check.capability is Muxer ==> told.checks[i].kind == "muxer"@
                    && told.checks[i].name == check.capability->Muxer_0
            }
        }),
{
}

} // verus!
