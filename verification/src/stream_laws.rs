//! What holds of the codec that a probed name stands for.
use vstd::prelude::*;

use crate::stream;
use crate::stream::{AudioCodecFamily, AudioCodecView, DtsProfileView, PcmKindView};
use crate::text;

verus! {

/// Whether a character is a given one, or the capital of it where it is a small ASCII letter.
pub open spec fn either_case(c: char, small: char) -> bool {
    c == small || ('a' <= small <= 'z' && c as int == small as int - 32)
}

/// Whether a text is a word in small letters, written in any ASCII case.
pub open spec fn spells(value: Seq<char>, word: Seq<char>) -> bool {
    value.len() == word.len() && forall|i: int|
        0 <= i < word.len() ==> either_case(#[trigger] value[i], word[i])
}

/// Whether a text begins with a word in small letters, written in any ASCII case.
pub open spec fn begins(value: Seq<char>, word: Seq<char>) -> bool {
    value.len() >= word.len() && spells(value.take(word.len() as int), word)
}

/// Whether a word in small letters stands in a text, written in any ASCII case.
pub open spec fn holds(value: Seq<char>, word: Seq<char>) -> bool {
    exists|i: int|
        0 <= i <= value.len() - word.len() && spells(
            #[trigger] value.subrange(i, i + word.len()),
            word,
        )
}

/// Whether no letter of a text is a capital.
pub open spec fn small(word: Seq<char>) -> bool {
    forall|i: int| 0 <= i < word.len() ==> !('A' <= #[trigger] word[i] <= 'Z')
}

/// Lowercase text is a word in small letters exactly where the text spells it.
pub proof fn lemma_spells(value: Seq<char>, word: Seq<char>)
    requires
        small(word),
    ensures
        spells(value, word) <==> text::lower(value) == word,
{
    if spells(value, word) {
        assert forall|i: int| 0 <= i < word.len() implies text::lower(value)[i] == word[i] by {
            assert(either_case(value[i], word[i]));
            assert(!('A' <= word[i] <= 'Z'));
        }
        assert(text::lower(value) =~= word);
    }
    if text::lower(value) == word {
        assert forall|i: int| 0 <= i < word.len() implies either_case(#[trigger] value[i], word[i]) by {
            assert(text::lower(value)[i] == word[i]);
        }
    }
}

/// Lowercase text begins with a word in small letters exactly where the text does.
pub proof fn lemma_begins(value: Seq<char>, word: Seq<char>)
    requires
        small(word),
    ensures
        begins(value, word) <==> text::starts_with(text::lower(value), word),
{
    if value.len() >= word.len() {
        lemma_spells(value.take(word.len() as int), word);
        assert(text::lower(value.take(word.len() as int)) =~= text::lower(value).subrange(
            0,
            word.len() as int,
        ));
    }
}

/// A word in small letters stands in lowercase text exactly where it stands in the text.
pub proof fn lemma_holds(value: Seq<char>, word: Seq<char>)
    requires
        small(word),
    ensures
        holds(value, word) <==> text::contains(text::lower(value), word),
{
    let low = text::lower(value);
    assert forall|i: int| 0 <= i <= value.len() - word.len() implies (spells(
        #[trigger] value.subrange(i, i + word.len()),
        word,
    ) <==> text::occurs_at(low, word, i)) by {
        lemma_spells(value.subrange(i, i + word.len()), word);
        assert(text::lower(value.subrange(i, i + word.len())) =~= low.subrange(
            i,
            i + word.len(),
        ));
    }
    if holds(value, word) {
        let i = choose|i: int|
            0 <= i <= value.len() - word.len() && spells(
                #[trigger] value.subrange(i, i + word.len()),
                word,
            );
        assert(text::occurs_at(low, word, i));
    }
    if text::contains(low, word) {
        let i = choose|i: int| text::occurs_at(low, word, i);
        assert(0 <= i <= value.len() - word.len());
        assert(spells(value.subrange(i, i + word.len()), word));
    }
}

proof fn lemma_codec_words()
    ensures
        small("ac3"@),
        small("eac3"@),
        small("aac"@),
        small("mp3"@),
        small("truehd"@),
        small("flac"@),
        small("opus"@),
        small("vorbis"@),
        small("dts"@),
        small("pcm_"@),
        small("pcm_s"@),
        small("pcm_u"@),
        small("pcm_f"@),
{
    reveal_strlit("ac3");
    reveal_strlit("eac3");
    reveal_strlit("aac");
    reveal_strlit("mp3");
    reveal_strlit("truehd");
    reveal_strlit("flac");
    reveal_strlit("opus");
    reveal_strlit("vorbis");
    reveal_strlit("dts");
    reveal_strlit("pcm_");
    reveal_strlit("pcm_s");
    reveal_strlit("pcm_u");
    reveal_strlit("pcm_f");
}

/// A codec is known by its name in any ASCII case: each of these names stands for the codec that it
/// is the name of, and for no other name comes that codec.
pub proof fn law_codec_names(name: Seq<char>, profile: Option<Seq<char>>)
    ensures
        spells(name, "ac3"@) <==> stream::codec_of(name, profile) is Ac3,
        spells(name, "eac3"@) <==> stream::codec_of(name, profile) is Eac3,
        spells(name, "aac"@) <==> stream::codec_of(name, profile) is Aac,
        spells(name, "mp3"@) <==> stream::codec_of(name, profile) is Mp3,
        spells(name, "truehd"@) <==> stream::codec_of(name, profile) is TrueHd,
        spells(name, "flac"@) <==> stream::codec_of(name, profile) is Flac,
        spells(name, "opus"@) <==> stream::codec_of(name, profile) is Opus,
        spells(name, "vorbis"@) <==> stream::codec_of(name, profile) is Vorbis,
        spells(name, "dts"@) <==> stream::codec_of(name, profile) is Dts,
{
    lemma_codec_words();
    lemma_spells(name, "ac3"@);
    lemma_spells(name, "eac3"@);
    lemma_spells(name, "aac"@);
    lemma_spells(name, "mp3"@);
    lemma_spells(name, "truehd"@);
    lemma_spells(name, "flac"@);
    lemma_spells(name, "opus"@);
    lemma_spells(name, "vorbis"@);
    lemma_spells(name, "dts"@);
    reveal_strlit("ac3");
    reveal_strlit("eac3");
    reveal_strlit("aac");
    reveal_strlit("mp3");
    reveal_strlit("truehd");
    reveal_strlit("flac");
    reveal_strlit("opus");
    reveal_strlit("vorbis");
    reveal_strlit("dts");
    assert("ac3"@[0] == 'a' && "ac3"@[1] == 'c');
    assert("aac"@[0] == 'a' && "aac"@[1] == 'a');
    assert("eac3"@[0] == 'e' && "mp3"@[0] == 'm' && "truehd"@[0] == 't');
    assert("flac"@[0] == 'f' && "opus"@[0] == 'o' && "vorbis"@[0] == 'v' && "dts"@[0] == 'd');
}

/// Every name that begins with `pcm_`, in any ASCII case, stands for PCM and no other name does; the
/// next letter tells signed, unsigned and floating point samples.
pub proof fn law_pcm_names(name: Seq<char>, profile: Option<Seq<char>>)
    ensures
        begins(name, "pcm_"@) <==> stream::codec_of(name, profile) is Pcm,
        begins(name, "pcm_s"@) <==> stream::codec_of(name, profile) == AudioCodecView::Pcm(
            PcmKindView::Signed,
        ),
        begins(name, "pcm_u"@) <==> stream::codec_of(name, profile) == AudioCodecView::Pcm(
            PcmKindView::Unsigned,
        ),
        begins(name, "pcm_f"@) <==> stream::codec_of(name, profile) == AudioCodecView::Pcm(
            PcmKindView::Float,
        ),
{
    lemma_codec_words();
    lemma_begins(name, "pcm_"@);
    lemma_begins(name, "pcm_s"@);
    lemma_begins(name, "pcm_u"@);
    lemma_begins(name, "pcm_f"@);
    let low = text::lower(name);
    reveal_strlit("ac3");
    reveal_strlit("eac3");
    reveal_strlit("aac");
    reveal_strlit("mp3");
    reveal_strlit("truehd");
    reveal_strlit("flac");
    reveal_strlit("opus");
    reveal_strlit("vorbis");
    reveal_strlit("dts");
    reveal_strlit("pcm_");
    reveal_strlit("pcm_s");
    reveal_strlit("pcm_u");
    reveal_strlit("pcm_f");
    let head = "pcm_"@;
    if text::starts_with(low, head) {
        assert(low[0] == low.subrange(0, 4)[0]);
        assert(low[0] == 'p');
    }
    if text::starts_with(low, "pcm_s"@) || text::starts_with(low, "pcm_u"@) || text::starts_with(
        low,
        "pcm_f"@,
    ) {
        let five = low.subrange(0, 5);
        assert(low.subrange(0, 4) =~= five.subrange(0, 4));
        assert(low.subrange(0, 4) =~= head);
        assert(low[4] == five[4]);
    }
}

/// A name that stands for no known codec is kept in lowercase, and only such a name is.
pub proof fn law_other_codec_names(name: Seq<char>, profile: Option<Seq<char>>)
    ensures
        stream::codec_of(name, profile) is Other <==> !(spells(name, "ac3"@) || spells(
            name,
            "eac3"@,
        ) || spells(name, "aac"@) || spells(name, "mp3"@) || spells(name, "truehd"@) || spells(
            name,
            "flac"@,
        ) || spells(name, "opus"@) || spells(name, "vorbis"@) || spells(name, "dts"@) || begins(
            name,
            "pcm_"@,
        )),
        stream::codec_of(name, profile) matches AudioCodecView::Other(kept) ==> kept.len()
            == name.len() && small(kept) && spells(name, kept),
{
    law_codec_names(name, profile);
    law_pcm_names(name, profile);
    if stream::codec_of(name, profile) is Other {
        let kept = text::lower(name);
        assert(small(kept));
        lemma_spells(name, kept);
    }
}

/// The profile of DTS audio: an absent one is the core. Otherwise the first of these decides that
/// the text holds in any ASCII case: the names of master audio, those of high resolution, express,
/// and the core; any other text is kept as it is.
pub proof fn law_dts_profiles(name: Seq<char>, value: Seq<char>)
    requires
        spells(name, "dts"@),
    ensures
        stream::codec_of(name, None) == AudioCodecView::Dts(DtsProfileView::Core),
        ({
            let master = holds(value, "master audio"@) || holds(value, "dts-hd ma"@);
            let high = holds(value, "high resolution"@) || holds(value, "dts-hd hra"@);
            let express = holds(value, "express"@);
            let core = spells(value, "dts"@) || holds(value, "core"@);
            let codec = stream::codec_of(name, Some(value));
            &&& master <==> codec == AudioCodecView::Dts(DtsProfileView::HdMasterAudio)
            &&& high && !master <==> codec == AudioCodecView::Dts(DtsProfileView::HdHighResolution)
            &&& express && !master && !high <==> codec == AudioCodecView::Dts(
                DtsProfileView::Express,
            )
            &&& core && !master && !high && !express <==> codec == AudioCodecView::Dts(
                DtsProfileView::Core,
            )
            &&& !core && !master && !high && !express <==> codec == AudioCodecView::Dts(
                DtsProfileView::Unknown(value),
            )
        }),
{
    law_codec_names(name, None);
    law_codec_names(name, Some(value));
    lemma_codec_words();
    reveal_strlit("master audio");
    reveal_strlit("dts-hd ma");
    reveal_strlit("high resolution");
    reveal_strlit("dts-hd hra");
    reveal_strlit("express");
    reveal_strlit("core");
    lemma_holds(value, "master audio"@);
    lemma_holds(value, "dts-hd ma"@);
    lemma_holds(value, "high resolution"@);
    lemma_holds(value, "dts-hd hra"@);
    lemma_holds(value, "express"@);
    lemma_holds(value, "core"@);
    lemma_spells(value, "dts"@);
}

/// Every codec is of the family that has its name.
pub proof fn law_codec_families(codec: AudioCodecView)
    ensures
        codec is Ac3 <==> codec.family() == AudioCodecFamily::Ac3,
        codec is Eac3 <==> codec.family() == AudioCodecFamily::Eac3,
        codec is Aac <==> codec.family() == AudioCodecFamily::Aac,
        codec is Mp3 <==> codec.family() == AudioCodecFamily::Mp3,
        codec is Dts <==> codec.family() == AudioCodecFamily::Dts,
        codec is TrueHd <==> codec.family() == AudioCodecFamily::TrueHd,
        codec is Flac <==> codec.family() == AudioCodecFamily::Flac,
        codec is Opus <==> codec.family() == AudioCodecFamily::Opus,
        codec is Vorbis <==> codec.family() == AudioCodecFamily::Vorbis,
        codec is Pcm <==> codec.family() == AudioCodecFamily::Pcm,
        codec is Other <==> codec.family() == AudioCodecFamily::Other,
{
}

} // verus!
