//! What holds of media descriptions and of what they are made of.
use vstd::prelude::*;

use crate::media;
use crate::media::FormatInfoView;
use crate::model;
use crate::model::{MetadataView, ModelErrorView};
use crate::stream::{AudioStreamView, StreamInfoView};
use crate::target::{TargetLayout, TargetView};
use crate::text;
use crate::text_laws;

verus! {

/// A text that names something is faulty where it is blank or holds a NUL, and only there; a blank
/// one is told first.
pub proof fn law_names_are_text(field: Seq<char>, value: Seq<char>)
    ensures
        ({
            let fault = model::text_fault(field, value);
            let blank = text_laws::blank(value);
            &&& fault is None <==> !blank && !value.contains('\0')
            &&& blank ==> fault == Some(
                ModelErrorView::InvalidText { field, reason: "is empty"@ },
            )
            &&& !blank && value.contains('\0') ==> fault == Some(
                ModelErrorView::InvalidText { field, reason: "contains a NUL character"@ },
            )
        }),
{
    text_laws::law_trimmed(value);
}

/// Metadata is refused for its first entry with a blank key, or a NUL in the key or the value; a
/// value may be empty.
pub proof fn law_entries_are_text(key: Seq<char>, value: Seq<char>)
    ensures
        model::entry_fault(key, value) is None <==> text::trim(key).len() > 0 && !key.contains('\0')
            && !value.contains('\0'),
        model::entry_fault(key, Seq::<char>::empty()) is None <==> text::trim(key).len() > 0
            && !key.contains('\0'),
{
}

/// A key is found exactly where it is present, with its value.
pub proof fn law_lookups(m: MetadataView, key: Seq<char>, value: Seq<char>)
    ensures
        model::lookup(m.insert(key, value), key) == Some(value),
        model::lookup(m.remove(key), key) is None,
        forall|other: Seq<char>|
            other != key ==> #[trigger] model::lookup(m.insert(key, value), other) == model::lookup(
                m,
                other,
            ),
{
}

/// The language is what the tag `language` holds without the white space around it; a blank one is
/// none.
pub proof fn law_languages(m: MetadataView)
    ensures
        !m.dom().contains("language"@) ==> model::language_of(m) is None,
        m.dom().contains("language"@) && text::trim(m["language"@]).len() == 0
            ==> model::language_of(m) is None,
        model::language_of(m) matches Some(l) ==> l == text::trim(m["language"@]) && l.len() > 0
            && !l.contains('\0'),
        m.dom().contains("language"@) && text::trim(m["language"@]).len() > 0 && !text::trim(
            m["language"@],
        ).contains('\0') ==> model::language_of(m) == Some(text::trim(m["language"@])),
{
    if m.dom().contains("language"@) {
        text_laws::law_trimmed(m["language"@]);
    }
}

/// The names of a format are trimmed and in lowercase, in their order, without the blank ones.
pub proof fn law_format_names(names: Seq<Seq<char>>, name: Seq<char>)
    ensures
        ({
            let known = media::format_names(names);
            let more = media::format_names(names.push(name));
            &&& text::trim(name).len() == 0 ==> more == known
            &&& text::trim(name).len() > 0 ==> more == known.push(text::lower(text::trim(name)))
            &&& media::format_names(Seq::empty()) == Seq::<Seq<char>>::empty()
        }),
{
    assert(names.push(name).drop_last() =~= names);
    assert(text::lower(text::trim(name)).len() == text::trim(name).len());
}

/// A file is Matroska exactly where one of its formats is called so.
pub proof fn law_matroska_formats(format: FormatInfoView)
    ensures
        format.is_matroska() <==> exists|i: int|
            0 <= i < format.names.len() && #[trigger] format.names[i] == "matroska"@,
{
    if format.is_matroska() {
        let i = choose|i: int| 0 <= i < format.names.len() && format.names[i] == "matroska"@;
        assert(format.names[i] == "matroska"@);
    }
}

/// The audio streams of a file are those of its streams that are audio, in their order.
pub proof fn law_audio_streams_are_in_order(streams: Seq<StreamInfoView>, stream: StreamInfoView)
    ensures
        media::audio_of(Seq::empty()) == Seq::<AudioStreamView>::empty(),
        stream matches StreamInfoView::Audio(audio) ==> media::audio_of(streams.push(stream))
            == media::audio_of(streams).push(audio),
        !(stream is Audio) ==> media::audio_of(streams.push(stream)) == media::audio_of(streams),
{
    assert(streams.push(stream).drop_last() =~= streams);
}

/// The index that is reported as repeated belongs to two streams.
pub proof fn law_repeated_indices_repeat(streams: Seq<StreamInfoView>)
    ensures
        media::first_repeat(streams) matches Some(index) ==> exists|i: int, j: int|
            0 <= i < j < streams.len() && #[trigger] streams[i].index() == index
                && #[trigger] streams[j].index() == index,
        media::first_repeat(streams) is None ==> media::indices_distinct(streams),
    decreases streams.len(),
{
    media::lemma_first_repeat(streams);
    if streams.len() > 0 && media::first_repeat(streams) is Some {
        let rest = streams.drop_last();
        let last = streams.len() - 1;
        if media::first_repeat(rest) is Some {
            law_repeated_indices_repeat(rest);
            let index = media::first_repeat(rest)->0;
            let (i, j) = choose|i: int, j: int|
                0 <= i < j < rest.len() && #[trigger] rest[i].index() == index
                    && #[trigger] rest[j].index() == index;
            assert(streams[i].index() == index && streams[j].index() == index);
        } else {
            let index = streams.last().index();
            let i = choose|i: int| 0 <= i < rest.len() && #[trigger] rest[i].index() == index;
            assert(streams[i].index() == index && streams[last].index() == index);
        }
    }
}

/// What a target makes of a number of channels: two for stereo, six for 5.1, and else the channels
/// themselves, six at most; the label of the layout says how many.
pub proof fn law_targets_limit_channels(target: TargetView, channels: u16)
    requires
        channels > 0,
    ensures
        ({
            let made = target.output_channels(channels);
            let label = target.layout_label(channels);
            &&& target.layout() is Stereo ==> made == 2
            &&& target.layout() is Surround51 ==> made == 6
            &&& target.layout() is KeepUpTo51 ==> made <= 6 && made <= channels && (made == 6
                || made == channels)
            &&& made == 1 ==> label == "mono"@
            &&& made == 2 ==> label == "stereo"@
            &&& made == 3 ==> label == "3.0"@
            &&& made == 4 ==> label == "4.0"@
            &&& made == 5 ==> label == "5.0"@
            &&& made == 6 ==> label == "5.1"@
        }),
{
}

/// What a target is told by: its codec, its encoder, its bitrate and its layout.
pub proof fn law_targets_are_told(bitrate: u64, layout: TargetLayout)
    ensures
        ({
            let ac3 = TargetView::Ac3 { bitrate, layout };
            let eac3 = TargetView::Eac3 { bitrate, layout };
            let aac = TargetView::Aac { bitrate, layout };
            &&& ac3.codec_label() == "AC-3"@ && ac3.encoder() == "ac3"@
            &&& eac3.codec_label() == "E-AC-3"@ && eac3.encoder() == "eac3"@
            &&& aac.codec_label() == "AAC"@ && aac.encoder() == "aac"@
            &&& ac3.bitrate() == bitrate && eac3.bitrate() == bitrate && aac.bitrate() == bitrate
            &&& ac3.layout() == layout && eac3.layout() == layout && aac.layout() == layout
            &&& TargetLayout::KeepUpTo51.label() == "up to 5.1"@
            &&& TargetLayout::Stereo.label() == "stereo"@
            &&& TargetLayout::Surround51.label() == "5.1"@
        }),
{
}

} // verus!
