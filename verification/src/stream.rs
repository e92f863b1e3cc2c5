//! Codecs, dispositions and streams of a media file.
use vstd::prelude::*;

use crate::model;
use crate::model::{
    Bitrate, ChannelCount, Metadata, MetadataView, ModelError, SampleRate,
    StreamIndex, StreamTiming, StreamTimingView,
};
use crate::table::TextMap;
use crate::text;

verus! {

/// Disposition flags by name.
pub type DispositionsView = Map<Seq<char>, bool>;

/// The disposition flags that every stream has.
pub open spec fn known_dispositions() -> Seq<Seq<char>> {
    seq![
        "default"@,
        "dub"@,
        "original"@,
        "comment"@,
        "lyrics"@,
        "karaoke"@,
        "forced"@,
        "hearing_impaired"@,
        "visual_impaired"@,
        "clean_effects"@,
        "attached_pic"@,
        "timed_thumbnails"@,
        "captions"@,
        "descriptions"@,
        "metadata"@,
        "dependent"@,
        "still_image"@,
    ]
}

/// The given flags, with `false` for each of the names that is not among them.
pub open spec fn with_names(flags: DispositionsView, names: Seq<Seq<char>>) -> DispositionsView {
    Map::new(
        |k: Seq<char>| flags.dom().contains(k) || names.contains(k),
        |k: Seq<char>| flags.dom().contains(k) && flags[k],
    )
}

/// The given flags, with `false` for each known flag that is not among them.
pub open spec fn with_known(flags: DispositionsView) -> DispositionsView {
    with_names(flags, known_dispositions())
}

fn known_names() -> (r: Vec<&'static str>)
    ensures
        r.deep_view() == known_dispositions(),
{
    let names: Vec<&'static str> = vec![
        "default",
        "dub",
        "original",
        "comment",
        "lyrics",
        "karaoke",
        "forced",
        "hearing_impaired",
        "visual_impaired",
        "clean_effects",
        "attached_pic",
        "timed_thumbnails",
        "captions",
        "descriptions",
        "metadata",
        "dependent",
        "still_image",
    ];
    names
}

/// Stream disposition flags. The known flags are always present; others are retained.
#[derive(Debug, PartialEq, Eq)]
pub struct Dispositions {
    flags: TextMap<bool>,
}

impl View for Dispositions {
    type V = DispositionsView;

    closed spec fn view(&self) -> DispositionsView {
        self.flags@
    }
}

impl Clone for Dispositions {
    fn clone(&self) -> (r: Self)
        ensures
            r@ == self@,
    {
        proof {
            use_type_invariant(self);
        }
        Dispositions { flags: self.flags.clone() }
    }
}

impl Default for Dispositions {
    fn default() -> (r: Self)
        ensures
            r@ == with_known(Map::<Seq<char>, bool>::empty()),
    {
        Dispositions::from_flags(TextMap::new())
    }
}

impl Dispositions {
    #[verifier::type_invariant]
    pub open spec fn complete(self) -> bool {
        forall|k: Seq<char>| #[trigger]
            known_dispositions().contains(k) ==> self@.dom().contains(k)
    }

    /// The dispositions with the given flags; a known flag that is not given is off.
    pub fn from_flags(flags: TextMap<bool>) -> (r: Self)
        ensures
            r@ == with_known(flags@),
    {
        let ghost given = flags@;
        let names = known_names();
        let mut all = flags;
        let mut i: usize = 0;
        proof {
            assert(with_names(given, known_dispositions().take(0)) == given);
        }
        while i < names.len()
            invariant
                names.deep_view() == known_dispositions(),
                i <= names@.len(),
                all@ == with_names(given, known_dispositions().take(i as int)),
            decreases names@.len() - i,
        {
            let ghost done = known_dispositions().take(i as int);
            let ghost next = known_dispositions().take(i + 1);
            let name = names[i];
            proof {
                assert(name@ == known_dispositions()[i as int]);
                assert(next == done.push(name@));
                assert forall|k: Seq<char>| next.contains(k) <==> done.contains(k) || k == name@ by {
                    if done.contains(k) {
                        let j = choose|j: int| 0 <= j < done.len() && done[j] == k;
                        assert(next[j] == k);
                    }
                    assert(next[i as int] == name@);
                }
            }
            let missing = match all.get(name) {
                Some(_) => false,
                None => true,
            };
            if missing {
                all.insert(name.to_owned(), false);
            }
            proof {
                assert(all@ =~= with_names(given, next));
            }
            i = i + 1;
        }
        proof {
            assert(known_dispositions().take(i as int) == known_dispositions());
        }
        Dispositions { flags: all }
    }

    /// Whether the stream is marked as default.
    pub fn is_default(&self) -> (r: bool)
        ensures
            r == self@["default"@],
    {
        proof {
            use_type_invariant(self);
            assert(known_dispositions()[0] == "default"@);
            assert(known_dispositions().contains("default"@));
        }
        match self.flags.get("default") {
            Some(value) => *value,
            None => false,
        }
    }

    /// Sets the default mark.
    pub fn set_default(&mut self, value: bool)
        ensures
            final(self)@ == old(self)@.insert("default"@, value),
    {
        proof {
            use_type_invariant(&*self);
        }
        let mut flags: TextMap<bool> = self.flags.clone();
        flags.insert("default".to_owned(), value);
        self.flags = flags;
    }

    /// A flag by name; a flag that is neither known nor given has no value.
    pub fn flag(&self, name: &str) -> (r: Option<bool>)
        ensures
            r == model::lookup(self@, name@),
    {
        match self.flags.get(name) {
            Some(value) => Some(*value),
            None => None,
        }
    }

    /// All flags, known and retained.
    pub fn to_flags(&self) -> (r: TextMap<bool>)
        ensures
            r@ == self@,
    {
        self.flags.clone()
    }
}

/// What was given to `from_flags` comes back from `to_flags`: taking the flags of dispositions and
/// making dispositions of them again changes nothing.
pub proof fn law_flags_round_trip(flags: DispositionsView)
    ensures
        with_known(with_known(flags)) == with_known(flags),
{
    assert(with_known(with_known(flags)) =~= with_known(flags));
}

/// Facts that all kinds of streams have in common.
#[derive(Debug, PartialEq, Eq)]
pub struct StreamCommon {
    index: StreamIndex,
    codec_name: String,
    codec_profile: Option<String>,
    bitrate: Option<Bitrate>,
    timing: StreamTiming,
    metadata: Metadata,
    dispositions: Dispositions,
}

/// Facts that all kinds of streams have in common.
pub struct StreamCommonView {
    /// Index within the container.
    pub index: u32,
    /// Codec name as probed.
    pub codec_name: Seq<char>,
    /// Codec profile as probed.
    pub codec_profile: Option<Seq<char>>,
    /// Bits per second.
    pub bitrate: Option<u64>,
    /// Start and duration.
    pub timing: StreamTimingView,
    /// Stream metadata.
    pub metadata: MetadataView,
    /// Disposition flags.
    pub dispositions: DispositionsView,
}

impl StreamCommonView {
    /// Whether the stream is marked as default.
    pub open spec fn is_default(self) -> bool {
        self.dispositions["default"@]
    }
}

impl View for StreamCommon {
    type V = StreamCommonView;

    closed spec fn view(&self) -> StreamCommonView {
        StreamCommonView {
            index: self.index@,
            codec_name: self.codec_name@,
            codec_profile: self.codec_profile.deep_view(),
            bitrate: self.bitrate.deep_view(),
            timing: self.timing@,
            metadata: self.metadata@,
            dispositions: self.dispositions@,
        }
    }
}

impl Clone for StreamCommon {
    fn clone(&self) -> (r: Self)
        ensures
            r@ == self@,
    {
        StreamCommon {
            index: self.index,
            codec_name: self.codec_name.clone(),
            codec_profile: text::copy_text(&self.codec_profile),
            bitrate: self.bitrate,
            timing: self.timing,
            metadata: self.metadata.clone(),
            dispositions: self.dispositions.clone(),
        }
    }
}

impl StreamCommon {
    /// A stream with an index and a codec name and nothing else known; a blank codec name and NUL
    /// characters are rejected.
    pub fn new(index: StreamIndex, codec_name: &str) -> (r: Result<Self, ModelError>)
        ensures
            match r {
                Ok(c) => model::text_fault("codec name"@, codec_name@) is None && c@ == (
                StreamCommonView {
                    index: index@,
                    codec_name: codec_name@,
                    codec_profile: None,
                    bitrate: None,
                    timing: StreamTimingView { start: None, duration_ticks: None },
                    metadata: Map::empty(),
                    dispositions: with_known(Map::empty()),
                }),
                Err(e) => model::text_fault("codec name"@, codec_name@) == Some(e@),
            },
    {
        match model::validate_text("codec name", codec_name) {
            Ok(_) => {},
            Err(e) => {
                return Err(e);
            },
        }
        Ok(
            StreamCommon {
                index,
                codec_name: codec_name.to_owned(),
                codec_profile: None,
                bitrate: None,
                timing: StreamTiming::default(),
                metadata: Metadata::default(),
                dispositions: Dispositions::default(),
            },
        )
    }

    /// The same facts with this codec profile.
    pub fn with_profile(self, profile: Option<String>) -> (r: Self)
        ensures
            r@ == (StreamCommonView { codec_profile: profile.deep_view(), ..self@ }),
    {
        StreamCommon { codec_profile: profile, ..self }
    }

    /// The same facts with this bitrate.
    pub fn with_bitrate(self, bitrate: Option<Bitrate>) -> (r: Self)
        ensures
            r@ == (StreamCommonView { bitrate: bitrate.deep_view(), ..self@ }),
    {
        StreamCommon { bitrate, ..self }
    }

    /// The same facts with this timing.
    pub fn with_timing(self, timing: StreamTiming) -> (r: Self)
        ensures
            r@ == (StreamCommonView { timing: timing@, ..self@ }),
    {
        StreamCommon { timing, ..self }
    }

    /// The same facts with this metadata.
    pub fn with_metadata(self, metadata: Metadata) -> (r: Self)
        ensures
            r@ == (StreamCommonView { metadata: metadata@, ..self@ }),
    {
        StreamCommon { metadata, ..self }
    }

    /// The same facts with these dispositions.
    pub fn with_dispositions(self, dispositions: Dispositions) -> (r: Self)
        ensures
            r@ == (StreamCommonView { dispositions: dispositions@, ..self@ }),
    {
        StreamCommon { dispositions, ..self }
    }

    /// The index within the container.
    pub fn index(&self) -> (r: StreamIndex)
        ensures
            r@ == self@.index,
    {
        self.index
    }

    /// The codec name as probed.
    pub fn codec_name(&self) -> (r: &str)
        ensures
            r@ == self@.codec_name,
    {
        self.codec_name.as_str()
    }

    /// The codec profile as probed.
    pub fn codec_profile(&self) -> (r: Option<&str>)
        ensures
            r.deep_view() == self@.codec_profile,
    {
        text::text_ref(&self.codec_profile)
    }

    /// The bitrate.
    pub fn bitrate(&self) -> (r: Option<Bitrate>)
        ensures
            r.deep_view() == self@.bitrate,
    {
        self.bitrate
    }

    /// Start and duration.
    pub fn timing(&self) -> (r: &StreamTiming)
        ensures
            r@ == self@.timing,
    {
        &self.timing
    }

    /// The stream metadata.
    pub fn metadata(&self) -> (r: &Metadata)
        ensures
            r@ == self@.metadata,
    {
        &self.metadata
    }

    /// The disposition flags.
    pub fn dispositions(&self) -> (r: &Dispositions)
        ensures
            r@ == self@.dispositions,
    {
        &self.dispositions
    }
}

/// A DTS codec profile.
#[derive(Debug, Clone, PartialEq, Eq, PartialOrd, Ord, Hash)]
#[non_exhaustive]
pub enum DtsProfile {
    /// DTS core.
    Core,
    /// DTS-HD High Resolution Audio.
    HdHighResolution,
    /// DTS-HD Master Audio.
    HdMasterAudio,
    /// DTS Express.
    Express,
    /// A profile that is not known, as it was probed.
    Unknown(String),
}

/// A DTS codec profile.
pub enum DtsProfileView {
    /// DTS core.
    Core,
    /// DTS-HD High Resolution Audio.
    HdHighResolution,
    /// DTS-HD Master Audio.
    HdMasterAudio,
    /// DTS Express.
    Express,
    /// A profile that is not known.
    Unknown(Seq<char>),
}

impl View for DtsProfile {
    type V = DtsProfileView;

    open spec fn view(&self) -> DtsProfileView {
        match *self {
            DtsProfile::Core => DtsProfileView::Core,
            DtsProfile::HdHighResolution => DtsProfileView::HdHighResolution,
            DtsProfile::HdMasterAudio => DtsProfileView::HdMasterAudio,
            DtsProfile::Express => DtsProfileView::Express,
            DtsProfile::Unknown(value) => DtsProfileView::Unknown(value@),
        }
    }
}

/// The number format of PCM audio.
#[derive(Debug, Clone, PartialEq, Eq, PartialOrd, Ord, Hash)]
#[non_exhaustive]
pub enum PcmKind {
    /// Signed integers.
    Signed,
    /// Unsigned integers.
    Unsigned,
    /// Floating-point numbers.
    Float,
    /// Another format, as it was probed.
    Other(String),
}

/// The number format of PCM audio.
pub enum PcmKindView {
    /// Signed integers.
    Signed,
    /// Unsigned integers.
    Unsigned,
    /// Floating-point numbers.
    Float,
    /// Another format.
    Other(Seq<char>),
}

impl View for PcmKind {
    type V = PcmKindView;

    open spec fn view(&self) -> PcmKindView {
        match *self {
            PcmKind::Signed => PcmKindView::Signed,
            PcmKind::Unsigned => PcmKindView::Unsigned,
            PcmKind::Float => PcmKindView::Float,
            PcmKind::Other(value) => PcmKindView::Other(value@),
        }
    }
}

/// A classified audio codec.
#[derive(Debug, PartialEq, Eq, PartialOrd, Ord, Hash)]
#[non_exhaustive]
pub enum AudioCodec {
    /// Dolby Digital.
    Ac3,
    /// Dolby Digital Plus.
    Eac3,
    /// Advanced Audio Coding.
    Aac,
    /// MPEG audio layer III.
    Mp3,
    /// DTS.
    Dts(DtsProfile),
    /// Dolby TrueHD.
    TrueHd,
    /// FLAC.
    Flac,
    /// Opus.
    Opus,
    /// Vorbis.
    Vorbis,
    /// Uncompressed audio.
    Pcm(PcmKind),
    /// A codec that is not known, as it was probed.
    Other(String),
}

/// A classified audio codec.
pub enum AudioCodecView {
    /// Dolby Digital.
    Ac3,
    /// Dolby Digital Plus.
    Eac3,
    /// Advanced Audio Coding.
    Aac,
    /// MPEG audio layer III.
    Mp3,
    /// DTS.
    Dts(DtsProfileView),
    /// Dolby TrueHD.
    TrueHd,
    /// FLAC.
    Flac,
    /// Opus.
    Opus,
    /// Vorbis.
    Vorbis,
    /// Uncompressed audio.
    Pcm(PcmKindView),
    /// A codec that is not known.
    Other(Seq<char>),
}

impl View for AudioCodec {
    type V = AudioCodecView;

    open spec fn view(&self) -> AudioCodecView {
        match *self {
            AudioCodec::Ac3 => AudioCodecView::Ac3,
            AudioCodec::Eac3 => AudioCodecView::Eac3,
            AudioCodec::Aac => AudioCodecView::Aac,
            AudioCodec::Mp3 => AudioCodecView::Mp3,
            AudioCodec::Dts(profile) => AudioCodecView::Dts(profile@),
            AudioCodec::TrueHd => AudioCodecView::TrueHd,
            AudioCodec::Flac => AudioCodecView::Flac,
            AudioCodec::Opus => AudioCodecView::Opus,
            AudioCodec::Vorbis => AudioCodecView::Vorbis,
            AudioCodec::Pcm(kind) => AudioCodecView::Pcm(kind@),
            AudioCodec::Other(value) => AudioCodecView::Other(value@),
        }
    }
}

impl Clone for AudioCodec {
    fn clone(&self) -> (r: Self)
        ensures
            r@ == self@,
    {
        match self {
            AudioCodec::Ac3 => AudioCodec::Ac3,
            AudioCodec::Eac3 => AudioCodec::Eac3,
            AudioCodec::Aac => AudioCodec::Aac,
            AudioCodec::Mp3 => AudioCodec::Mp3,
            AudioCodec::Dts(profile) => AudioCodec::Dts(
                match profile {
                    DtsProfile::Core => DtsProfile::Core,
                    DtsProfile::HdHighResolution => DtsProfile::HdHighResolution,
                    DtsProfile::HdMasterAudio => DtsProfile::HdMasterAudio,
                    DtsProfile::Express => DtsProfile::Express,
                    DtsProfile::Unknown(value) => DtsProfile::Unknown(value.clone()),
                },
            ),
            AudioCodec::TrueHd => AudioCodec::TrueHd,
            AudioCodec::Flac => AudioCodec::Flac,
            AudioCodec::Opus => AudioCodec::Opus,
            AudioCodec::Vorbis => AudioCodec::Vorbis,
            AudioCodec::Pcm(kind) => AudioCodec::Pcm(
                match kind {
                    PcmKind::Signed => PcmKind::Signed,
                    PcmKind::Unsigned => PcmKind::Unsigned,
                    PcmKind::Float => PcmKind::Float,
                    PcmKind::Other(value) => PcmKind::Other(value.clone()),
                },
            ),
            AudioCodec::Other(value) => AudioCodec::Other(value.clone()),
        }
    }
}

/// The DTS profile that a probed profile text names, in any ASCII case.
pub open spec fn dts_profile(profile: Option<Seq<char>>) -> DtsProfileView {
    match profile {
        None => DtsProfileView::Core,
        Some(value) => {
            let name = text::lower(value);
            if text::contains(name, "master audio"@) || text::contains(name, "dts-hd ma"@) {
                DtsProfileView::HdMasterAudio
            } else if text::contains(name, "high resolution"@) || text::contains(
                name,
                "dts-hd hra"@,
            ) {
                DtsProfileView::HdHighResolution
            } else if text::contains(name, "express"@) {
                DtsProfileView::Express
            } else if name == "dts"@ || text::contains(name, "core"@) {
                DtsProfileView::Core
            } else {
                DtsProfileView::Unknown(value)
            }
        },
    }
}

/// The codec that a probed codec name and profile stand for, in any ASCII case.
pub open spec fn codec_of(codec_name: Seq<char>, profile: Option<Seq<char>>) -> AudioCodecView {
    let name = text::lower(codec_name);
    if name == "ac3"@ {
        AudioCodecView::Ac3
    } else if name == "eac3"@ {
        AudioCodecView::Eac3
    } else if name == "aac"@ {
        AudioCodecView::Aac
    } else if name == "mp3"@ {
        AudioCodecView::Mp3
    } else if name == "truehd"@ {
        AudioCodecView::TrueHd
    } else if name == "flac"@ {
        AudioCodecView::Flac
    } else if name == "opus"@ {
        AudioCodecView::Opus
    } else if name == "vorbis"@ {
        AudioCodecView::Vorbis
    } else if name == "dts"@ {
        AudioCodecView::Dts(dts_profile(profile))
    } else if text::starts_with(name, "pcm_s"@) {
        AudioCodecView::Pcm(PcmKindView::Signed)
    } else if text::starts_with(name, "pcm_u"@) {
        AudioCodecView::Pcm(PcmKindView::Unsigned)
    } else if text::starts_with(name, "pcm_f"@) {
        AudioCodecView::Pcm(PcmKindView::Float)
    } else if text::starts_with(name, "pcm_"@) {
        AudioCodecView::Pcm(PcmKindView::Other(name))
    } else {
        AudioCodecView::Other(name)
    }
}

fn classify_dts_profile(profile: Option<&str>) -> (r: DtsProfile)
    ensures
        r@ == dts_profile(profile.deep_view()),
{
    let value = match profile {
        Some(value) => value,
        None => {
            return DtsProfile::Core;
        },
    };
    let lowered = text::to_lower(value);
    let name = lowered.as_str();
    if text::has(name, "master audio") || text::has(name, "dts-hd ma") {
        DtsProfile::HdMasterAudio
    } else if text::has(name, "high resolution") || text::has(name, "dts-hd hra") {
        DtsProfile::HdHighResolution
    } else if text::has(name, "express") {
        DtsProfile::Express
    } else if text::same(name, "dts") || text::has(name, "core") {
        DtsProfile::Core
    } else {
        DtsProfile::Unknown(value.to_owned())
    }
}

impl AudioCodecView {
    /// The family of the codec.
    pub open spec fn family(self) -> AudioCodecFamily {
        match self {
            AudioCodecView::Ac3 => AudioCodecFamily::Ac3,
            AudioCodecView::Eac3 => AudioCodecFamily::Eac3,
            AudioCodecView::Aac => AudioCodecFamily::Aac,
            AudioCodecView::Mp3 => AudioCodecFamily::Mp3,
            AudioCodecView::Dts(_) => AudioCodecFamily::Dts,
            AudioCodecView::TrueHd => AudioCodecFamily::TrueHd,
            AudioCodecView::Flac => AudioCodecFamily::Flac,
            AudioCodecView::Opus => AudioCodecFamily::Opus,
            AudioCodecView::Vorbis => AudioCodecFamily::Vorbis,
            AudioCodecView::Pcm(_) => AudioCodecFamily::Pcm,
            AudioCodecView::Other(_) => AudioCodecFamily::Other,
        }
    }

    /// The name of the codec for people.
    pub open spec fn name(self) -> Seq<char> {
        match self {
            AudioCodecView::Ac3 => "AC-3"@,
            AudioCodecView::Eac3 => "E-AC-3"@,
            AudioCodecView::Aac => "AAC"@,
            AudioCodecView::Mp3 => "MP3"@,
            AudioCodecView::Dts(DtsProfileView::Core) => "DTS"@,
            AudioCodecView::Dts(DtsProfileView::HdHighResolution) => "DTS-HD HRA"@,
            AudioCodecView::Dts(DtsProfileView::HdMasterAudio) => "DTS-HD MA"@,
            AudioCodecView::Dts(DtsProfileView::Express) => "DTS Express"@,
            AudioCodecView::Dts(DtsProfileView::Unknown(value)) => value,
            AudioCodecView::TrueHd => "TrueHD"@,
            AudioCodecView::Flac => "FLAC"@,
            AudioCodecView::Opus => "Opus"@,
            AudioCodecView::Vorbis => "Vorbis"@,
            AudioCodecView::Pcm(_) => "PCM"@,
            AudioCodecView::Other(value) => value,
        }
    }
}

impl AudioCodec {
    /// The codec that a probed codec name and profile stand for.
    pub fn from_ffprobe(codec_name: &str, profile: Option<&str>) -> (r: Self)
        ensures
            r@ == codec_of(codec_name@, profile.deep_view()),
    {
        let lowered = text::to_lower(codec_name);
        let name = lowered.as_str();
        if text::same(name, "ac3") {
            AudioCodec::Ac3
        } else if text::same(name, "eac3") {
            AudioCodec::Eac3
        } else if text::same(name, "aac") {
            AudioCodec::Aac
        } else if text::same(name, "mp3") {
            AudioCodec::Mp3
        } else if text::same(name, "truehd") {
            AudioCodec::TrueHd
        } else if text::same(name, "flac") {
            AudioCodec::Flac
        } else if text::same(name, "opus") {
            AudioCodec::Opus
        } else if text::same(name, "vorbis") {
            AudioCodec::Vorbis
        } else if text::same(name, "dts") {
            AudioCodec::Dts(classify_dts_profile(profile))
        } else if text::begins_with(name, "pcm_s") {
            AudioCodec::Pcm(PcmKind::Signed)
        } else if text::begins_with(name, "pcm_u") {
            AudioCodec::Pcm(PcmKind::Unsigned)
        } else if text::begins_with(name, "pcm_f") {
            AudioCodec::Pcm(PcmKind::Float)
        } else if text::begins_with(name, "pcm_") {
            AudioCodec::Pcm(PcmKind::Other(lowered))
        } else {
            AudioCodec::Other(lowered)
        }
    }

    /// The family of the codec.
    pub fn family(&self) -> (r: AudioCodecFamily)
        ensures
            r == self@.family(),
    {
        match self {
            AudioCodec::Ac3 => AudioCodecFamily::Ac3,
            AudioCodec::Eac3 => AudioCodecFamily::Eac3,
            AudioCodec::Aac => AudioCodecFamily::Aac,
            AudioCodec::Mp3 => AudioCodecFamily::Mp3,
            AudioCodec::Dts(_) => AudioCodecFamily::Dts,
            AudioCodec::TrueHd => AudioCodecFamily::TrueHd,
            AudioCodec::Flac => AudioCodecFamily::Flac,
            AudioCodec::Opus => AudioCodecFamily::Opus,
            AudioCodec::Vorbis => AudioCodecFamily::Vorbis,
            AudioCodec::Pcm(_) => AudioCodecFamily::Pcm,
            AudioCodec::Other(_) => AudioCodecFamily::Other,
        }
    }

    /// The name of the codec for people.
    pub fn show(&self) -> (r: String)
        ensures
            r@ == self@.name(),
    {
        match self {
            AudioCodec::Ac3 => "AC-3".to_owned(),
            AudioCodec::Eac3 => "E-AC-3".to_owned(),
            AudioCodec::Aac => "AAC".to_owned(),
            AudioCodec::Mp3 => "MP3".to_owned(),
            AudioCodec::Dts(DtsProfile::Core) => "DTS".to_owned(),
            AudioCodec::Dts(DtsProfile::HdHighResolution) => "DTS-HD HRA".to_owned(),
            AudioCodec::Dts(DtsProfile::HdMasterAudio) => "DTS-HD MA".to_owned(),
            AudioCodec::Dts(DtsProfile::Express) => "DTS Express".to_owned(),
            AudioCodec::Dts(DtsProfile::Unknown(value)) => value.clone(),
            AudioCodec::TrueHd => "TrueHD".to_owned(),
            AudioCodec::Flac => "FLAC".to_owned(),
            AudioCodec::Opus => "Opus".to_owned(),
            AudioCodec::Vorbis => "Vorbis".to_owned(),
            AudioCodec::Pcm(_) => "PCM".to_owned(),
            AudioCodec::Other(value) => value.clone(),
        }
    }
}

/// The family of an audio codec, without its profile.
#[derive(Debug, Clone, Copy, PartialEq, Eq, Structural, PartialOrd, Ord, Hash)]
#[non_exhaustive]
pub enum AudioCodecFamily {
    /// Dolby Digital.
    Ac3,
    /// Dolby Digital Plus.
    Eac3,
    /// Advanced Audio Coding.
    Aac,
    /// MPEG audio layer III.
    Mp3,
    /// DTS.
    Dts,
    /// Dolby TrueHD.
    TrueHd,
    /// FLAC.
    Flac,
    /// Opus.
    Opus,
    /// Vorbis.
    Vorbis,
    /// Uncompressed audio.
    Pcm,
    /// A codec that is not known.
    Other,
}

/// Channel count and layout of audio.
#[derive(Debug, PartialEq, Eq)]
pub struct Channels {
    count: ChannelCount,
    layout_name: Option<String>,
}

/// Channel count and layout of audio.
pub struct ChannelsView {
    /// Number of channels.
    pub count: u16,
    /// Reported layout.
    pub layout_name: Option<Seq<char>>,
}

impl View for Channels {
    type V = ChannelsView;

    closed spec fn view(&self) -> ChannelsView {
        ChannelsView { count: self.count@, layout_name: self.layout_name.deep_view() }
    }
}

impl Clone for Channels {
    fn clone(&self) -> (r: Self)
        ensures
            r@ == self@,
    {
        Channels { count: self.count, layout_name: text::copy_text(&self.layout_name) }
    }
}

impl Channels {
    /// Channels of the given count and layout.
    pub fn new(count: ChannelCount, layout_name: Option<String>) -> (r: Self)
        ensures
            r@ == (ChannelsView { count: count@, layout_name: layout_name.deep_view() }),
    {
        Channels { count, layout_name }
    }

    /// The number of channels.
    pub fn count(&self) -> (r: ChannelCount)
        ensures
            r@ == self@.count,
    {
        self.count
    }

    /// The reported layout.
    pub fn layout_name(&self) -> (r: Option<&str>)
        ensures
            r.deep_view() == self@.layout_name,
    {
        text::text_ref(&self.layout_name)
    }
}

/// An audio stream.
#[derive(Debug, PartialEq, Eq)]
pub struct AudioStream {
    common: StreamCommon,
    codec: AudioCodec,
    channels: Channels,
    sample_rate: Option<SampleRate>,
}

/// An audio stream.
pub struct AudioStreamView {
    /// What all streams have.
    pub common: StreamCommonView,
    /// Classified codec.
    pub codec: AudioCodecView,
    /// Channel count and layout.
    pub channels: ChannelsView,
    /// Samples per second.
    pub sample_rate: Option<u32>,
}

impl View for AudioStream {
    type V = AudioStreamView;

    closed spec fn view(&self) -> AudioStreamView {
        AudioStreamView {
            common: self.common@,
            codec: self.codec@,
            channels: self.channels@,
            sample_rate: self.sample_rate.deep_view(),
        }
    }
}

impl DeepView for AudioStream {
    type V = AudioStreamView;

    open spec fn deep_view(&self) -> AudioStreamView {
        self@
    }
}

impl Clone for AudioStream {
    fn clone(&self) -> (r: Self)
        ensures
            r@ == self@,
    {
        AudioStream {
            common: self.common.clone(),
            codec: self.codec.clone(),
            channels: self.channels.clone(),
            sample_rate: self.sample_rate,
        }
    }
}

impl AudioStream {
    /// An audio stream of the given facts.
    pub fn new(
        common: StreamCommon,
        codec: AudioCodec,
        channels: Channels,
        sample_rate: Option<SampleRate>,
    ) -> (r: Self)
        ensures
            r@ == (AudioStreamView {
                common: common@,
                codec: codec@,
                channels: channels@,
                sample_rate: sample_rate.deep_view(),
            }),
    {
        AudioStream { common, codec, channels, sample_rate }
    }

    /// What all streams have.
    pub fn common(&self) -> (r: &StreamCommon)
        ensures
            r@ == self@.common,
    {
        &self.common
    }

    /// The classified codec.
    pub fn codec(&self) -> (r: &AudioCodec)
        ensures
            r@ == self@.codec,
    {
        &self.codec
    }

    /// Channel count and layout.
    pub fn channels(&self) -> (r: &Channels)
        ensures
            r@ == self@.channels,
    {
        &self.channels
    }

    /// The sample rate.
    pub fn sample_rate(&self) -> (r: Option<SampleRate>)
        ensures
            r.deep_view() == self@.sample_rate,
    {
        self.sample_rate
    }
}

/// A video stream.
#[derive(Debug, PartialEq, Eq)]
pub struct VideoStream {
    common: StreamCommon,
}

impl View for VideoStream {
    type V = StreamCommonView;

    closed spec fn view(&self) -> StreamCommonView {
        self.common@
    }
}

impl VideoStream {
    /// A video stream of the given facts.
    pub fn new(common: StreamCommon) -> (r: Self)
        ensures
            r@ == common@,
    {
        VideoStream { common }
    }

    /// What all streams have.
    pub fn common(&self) -> (r: &StreamCommon)
        ensures
            r@ == self@,
    {
        &self.common
    }
}

/// A subtitle stream.
#[derive(Debug, PartialEq, Eq)]
pub struct SubtitleStream {
    common: StreamCommon,
}

impl View for SubtitleStream {
    type V = StreamCommonView;

    closed spec fn view(&self) -> StreamCommonView {
        self.common@
    }
}

impl SubtitleStream {
    /// A subtitle stream of the given facts.
    pub fn new(common: StreamCommon) -> (r: Self)
        ensures
            r@ == common@,
    {
        SubtitleStream { common }
    }

    /// What all streams have.
    pub fn common(&self) -> (r: &StreamCommon)
        ensures
            r@ == self@,
    {
        &self.common
    }
}

/// A data stream.
#[derive(Debug, PartialEq, Eq)]
pub struct DataStream {
    common: StreamCommon,
}

impl View for DataStream {
    type V = StreamCommonView;

    closed spec fn view(&self) -> StreamCommonView {
        self.common@
    }
}

impl DataStream {
    /// A data stream of the given facts.
    pub fn new(common: StreamCommon) -> (r: Self)
        ensures
            r@ == common@,
    {
        DataStream { common }
    }

    /// What all streams have.
    pub fn common(&self) -> (r: &StreamCommon)
        ensures
            r@ == self@,
    {
        &self.common
    }
}

/// An attached file.
#[derive(Debug, PartialEq, Eq)]
pub struct AttachmentStream {
    common: StreamCommon,
    filename: Option<String>,
    mime_type: Option<String>,
}

/// An attached file.
pub struct AttachmentStreamView {
    /// What all streams have.
    pub common: StreamCommonView,
    /// File name.
    pub filename: Option<Seq<char>>,
    /// Media type.
    pub mime_type: Option<Seq<char>>,
}

impl View for AttachmentStream {
    type V = AttachmentStreamView;

    closed spec fn view(&self) -> AttachmentStreamView {
        AttachmentStreamView {
            common: self.common@,
            filename: self.filename.deep_view(),
            mime_type: self.mime_type.deep_view(),
        }
    }
}

impl AttachmentStream {
    /// An attached file of the given facts.
    pub fn new(
        common: StreamCommon,
        filename: Option<String>,
        mime_type: Option<String>,
    ) -> (r: Self)
        ensures
            r@ == (AttachmentStreamView {
                common: common@,
                filename: filename.deep_view(),
                mime_type: mime_type.deep_view(),
            }),
    {
        AttachmentStream { common, filename, mime_type }
    }

    /// What all streams have.
    pub fn common(&self) -> (r: &StreamCommon)
        ensures
            r@ == self@.common,
    {
        &self.common
    }

    /// The file name.
    pub fn filename(&self) -> (r: Option<&str>)
        ensures
            r.deep_view() == self@.filename,
    {
        text::text_ref(&self.filename)
    }

    /// The media type.
    pub fn mime_type(&self) -> (r: Option<&str>)
        ensures
            r.deep_view() == self@.mime_type,
    {
        text::text_ref(&self.mime_type)
    }
}

/// A stream of a kind that is not known.
#[derive(Debug, PartialEq, Eq)]
pub struct UnknownStream {
    common: StreamCommon,
    kind: String,
}

/// A stream of a kind that is not known.
pub struct UnknownStreamView {
    /// What all streams have.
    pub common: StreamCommonView,
    /// Kind as probed.
    pub kind: Seq<char>,
}

impl View for UnknownStream {
    type V = UnknownStreamView;

    closed spec fn view(&self) -> UnknownStreamView {
        UnknownStreamView { common: self.common@, kind: self.kind@ }
    }
}

impl UnknownStream {
    /// A stream of the given facts.
    pub fn new(common: StreamCommon, kind: String) -> (r: Self)
        ensures
            r@ == (UnknownStreamView { common: common@, kind: kind@ }),
    {
        UnknownStream { common, kind }
    }

    /// What all streams have.
    pub fn common(&self) -> (r: &StreamCommon)
        ensures
            r@ == self@.common,
    {
        &self.common
    }

    /// The kind as probed.
    pub fn kind(&self) -> (r: &str)
        ensures
            r@ == self@.kind,
    {
        self.kind.as_str()
    }
}

/// A stream of a media file.
#[derive(Debug, PartialEq, Eq)]
#[non_exhaustive]
pub enum StreamInfo {
    /// Video.
    Video(VideoStream),
    /// Audio.
    Audio(AudioStream),
    /// Subtitles.
    Subtitle(SubtitleStream),
    /// An attached file.
    Attachment(AttachmentStream),
    /// Data.
    Data(DataStream),
    /// A kind that is not known.
    Unknown(UnknownStream),
}

/// A stream of a media file.
pub enum StreamInfoView {
    /// Video.
    Video(StreamCommonView),
    /// Audio.
    Audio(AudioStreamView),
    /// Subtitles.
    Subtitle(StreamCommonView),
    /// An attached file.
    Attachment(AttachmentStreamView),
    /// Data.
    Data(StreamCommonView),
    /// A kind that is not known.
    Unknown(UnknownStreamView),
}

impl StreamInfoView {
    /// What all streams have.
    pub open spec fn common(self) -> StreamCommonView {
        match self {
            StreamInfoView::Video(common) => common,
            StreamInfoView::Audio(stream) => stream.common,
            StreamInfoView::Subtitle(common) => common,
            StreamInfoView::Attachment(stream) => stream.common,
            StreamInfoView::Data(common) => common,
            StreamInfoView::Unknown(stream) => stream.common,
        }
    }

    /// The index within the container.
    pub open spec fn index(self) -> u32 {
        self.common().index
    }

    /// The stream, where it is audio.
    pub open spec fn as_audio(self) -> Option<AudioStreamView> {
        match self {
            StreamInfoView::Audio(stream) => Some(stream),
            _ => None,
        }
    }
}

impl View for StreamInfo {
    type V = StreamInfoView;

    open spec fn view(&self) -> StreamInfoView {
        match *self {
            StreamInfo::Video(stream) => StreamInfoView::Video(stream@),
            StreamInfo::Audio(stream) => StreamInfoView::Audio(stream@),
            StreamInfo::Subtitle(stream) => StreamInfoView::Subtitle(stream@),
            StreamInfo::Attachment(stream) => StreamInfoView::Attachment(stream@),
            StreamInfo::Data(stream) => StreamInfoView::Data(stream@),
            StreamInfo::Unknown(stream) => StreamInfoView::Unknown(stream@),
        }
    }
}

impl DeepView for StreamInfo {
    type V = StreamInfoView;

    open spec fn deep_view(&self) -> StreamInfoView {
        self@
    }
}

impl Clone for StreamInfo {
    fn clone(&self) -> (r: Self)
        ensures
            r@ == self@,
    {
        match self {
            StreamInfo::Video(stream) => StreamInfo::Video(
                VideoStream { common: stream.common.clone() },
            ),
            StreamInfo::Audio(stream) => StreamInfo::Audio(stream.clone()),
            StreamInfo::Subtitle(stream) => StreamInfo::Subtitle(
                SubtitleStream { common: stream.common.clone() },
            ),
            StreamInfo::Attachment(stream) => StreamInfo::Attachment(
                AttachmentStream {
                    common: stream.common.clone(),
                    filename: text::copy_text(&stream.filename),
                    mime_type: text::copy_text(&stream.mime_type),
                },
            ),
            StreamInfo::Data(stream) => StreamInfo::Data(
                DataStream { common: stream.common.clone() },
            ),
            StreamInfo::Unknown(stream) => StreamInfo::Unknown(
                UnknownStream { common: stream.common.clone(), kind: stream.kind.clone() },
            ),
        }
    }
}

impl StreamInfo {
    /// What all streams have.
    pub fn common(&self) -> (r: &StreamCommon)
        ensures
            r@ == self@.common(),
    {
        match self {
            StreamInfo::Video(stream) => stream.common(),
            StreamInfo::Audio(stream) => stream.common(),
            StreamInfo::Subtitle(stream) => stream.common(),
            StreamInfo::Attachment(stream) => stream.common(),
            StreamInfo::Data(stream) => stream.common(),
            StreamInfo::Unknown(stream) => stream.common(),
        }
    }

    /// The index within the container.
    pub fn index(&self) -> (r: StreamIndex)
        ensures
            r@ == self@.index(),
    {
        self.common().index()
    }

    /// The stream, where it is audio.
    pub fn as_audio(&self) -> (r: Option<&AudioStream>)
        ensures
            r.deep_view() == self@.as_audio(),
    {
        match self {
            StreamInfo::Audio(stream) => Some(stream),
            _ => None,
        }
    }
}

} // verus!
