//! Target codecs, bitrates and layouts of encoded audio.
use vstd::prelude::*;

use crate::model::Bitrate;
use crate::number;
use crate::text;

verus! {

/// Why a target bitrate is not usable.
#[derive(Debug, Clone, Copy, PartialEq, Eq)]
#[non_exhaustive]
pub enum TargetBitrateError {
    /// AC-3 has no such bitrate.
    UnsupportedAc3 {
        /// Requested bits per second.
        bitrate: u64,
    },
    /// The bitrate lies outside the codec's range.
    OutOfRange {
        /// Label of the codec.
        codec: &'static str,
        /// Requested bits per second.
        bitrate: u64,
        /// Least bits per second.
        minimum: u64,
        /// Most bits per second.
        maximum: u64,
    },
}

/// Why a target bitrate is not usable.
pub enum TargetBitrateErrorView {
    /// AC-3 has no such bitrate.
    UnsupportedAc3 { bitrate: u64 },
    /// The bitrate lies outside the codec's range.
    OutOfRange { codec: Seq<char>, bitrate: u64, minimum: u64, maximum: u64 },
}

impl View for TargetBitrateError {
    type V = TargetBitrateErrorView;

    open spec fn view(&self) -> TargetBitrateErrorView {
        match *self {
            TargetBitrateError::UnsupportedAc3 { bitrate } =>
                TargetBitrateErrorView::UnsupportedAc3 { bitrate },
            TargetBitrateError::OutOfRange { codec, bitrate, minimum, maximum } =>
                TargetBitrateErrorView::OutOfRange { codec: codec@, bitrate, minimum, maximum },
        }
    }
}

impl TargetBitrateErrorView {
    /// The user-facing description.
    pub open spec fn message(self) -> Seq<char> {
        match self {
            TargetBitrateErrorView::UnsupportedAc3 { bitrate } => number::decimal(bitrate as int)
                + " bit/s is not a supported AC-3 bitrate"@,
            TargetBitrateErrorView::OutOfRange { codec, bitrate, minimum, maximum } => codec
                + " bitrate "@ + number::decimal(bitrate as int) + " bit/s is outside "@
                + number::decimal(minimum as int) + "..="@ + number::decimal(maximum as int),
        }
    }
}

impl TargetBitrateError {
    /// The user-facing description.
    pub fn message(&self) -> (r: String)
        ensures
            r@ == self@.message(),
    {
        match *self {
            TargetBitrateError::UnsupportedAc3 { bitrate } => text::concat2(
                number::show_u64(bitrate).as_str(),
                " bit/s is not a supported AC-3 bitrate",
            ),
            TargetBitrateError::OutOfRange { codec, bitrate, minimum, maximum } => {
                let mut out = text::concat3(
                    codec,
                    " bitrate ",
                    number::show_u64(bitrate).as_str(),
                );
                text::push_text(&mut out, " bit/s is outside ");
                text::push_text(&mut out, number::show_u64(minimum).as_str());
                text::push_text(&mut out, "..=");
                text::push_text(&mut out, number::show_u64(maximum).as_str());
                out
            },
        }
    }
}

/// The bitrates that AC-3 has.
pub open spec fn ac3_bitrates() -> Seq<u64> {
    seq![
        32_000u64,
        40_000,
        48_000,
        56_000,
        64_000,
        80_000,
        96_000,
        112_000,
        128_000,
        160_000,
        192_000,
        224_000,
        256_000,
        320_000,
        384_000,
        448_000,
        512_000,
        576_000,
        640_000,
    ]
}

/// An AC-3 bitrate.
#[derive(Debug, Clone, Copy, PartialEq, Eq, PartialOrd, Ord, Hash)]
pub struct Ac3Bitrate(u32);

impl View for Ac3Bitrate {
    type V = u64;

    closed spec fn view(&self) -> u64 {
        self.0 as u64
    }
}

impl Default for Ac3Bitrate {
    fn default() -> (r: Self)
        ensures
            r@ == 640_000,
    {
        proof {
            assert(ac3_bitrates()[18] == 640_000);
        }
        Ac3Bitrate(640_000)
    }
}

impl Ac3Bitrate {
    #[verifier::type_invariant]
    pub open spec fn standard(self) -> bool {
        ac3_bitrates().contains(self@)
    }

    /// An AC-3 bitrate; a value that AC-3 does not have is rejected.
    pub fn new(value: u64) -> (r: Result<Self, TargetBitrateError>)
        ensures
            match r {
                Ok(b) => ac3_bitrates().contains(value) && b@ == value,
                Err(e) => !ac3_bitrates().contains(value) && e@ == (
                TargetBitrateErrorView::UnsupportedAc3 { bitrate: value }),
            },
    {
        let allowed: [u64; 19] = [
            32_000,
            40_000,
            48_000,
            56_000,
            64_000,
            80_000,
            96_000,
            112_000,
            128_000,
            160_000,
            192_000,
            224_000,
            256_000,
            320_000,
            384_000,
            448_000,
            512_000,
            576_000,
            640_000,
        ];
        proof {
            assert(allowed@ =~= ac3_bitrates());
        }
        let mut i: usize = 0;
        while i < 19
            invariant
                i <= 19,
                allowed@ == ac3_bitrates(),
                forall|j: int| 0 <= j < i ==> ac3_bitrates()[j] != value,
            decreases 19 - i,
        {
            if allowed[i] == value {
                proof {
                    assert(ac3_bitrates()[i as int] == value);
                    assert(value <= 640_000);
                }
                return Ok(Ac3Bitrate(value as u32));
            }
            i = i + 1;
        }
        Err(TargetBitrateError::UnsupportedAc3 { bitrate: value })
    }

    /// The number of bits per second.
    pub fn get(self) -> (r: u64)
        ensures
            r == self@,
    {
        self.0 as u64
    }
}

fn ranged_bitrate(codec: &'static str, value: u64, minimum: u64, maximum: u64) -> (r: Result<
    Bitrate,
    TargetBitrateError,
>)
    requires
        minimum > 0,
    ensures
        match r {
            Ok(b) => minimum <= value <= maximum && b@ == value,
            Err(e) => !(minimum <= value <= maximum) && e@ == (TargetBitrateErrorView::OutOfRange {
                codec: codec@,
                bitrate: value,
                minimum,
                maximum,
            }),
        },
{
    if value < minimum || value > maximum {
        return Err(TargetBitrateError::OutOfRange { codec, bitrate: value, minimum, maximum });
    }
    match Bitrate::new(value) {
        Ok(bitrate) => Ok(bitrate),
        Err(_) => Err(TargetBitrateError::OutOfRange { codec, bitrate: value, minimum, maximum }),
    }
}

/// An E-AC-3 bitrate.
#[derive(Debug, Clone, Copy, PartialEq, Eq, PartialOrd, Ord, Hash)]
pub struct Eac3Bitrate(Bitrate);

impl View for Eac3Bitrate {
    type V = u64;

    closed spec fn view(&self) -> u64 {
        self.0@
    }
}

impl Eac3Bitrate {
    #[verifier::type_invariant]
    pub open spec fn in_range(self) -> bool {
        32_000 <= self@ <= 6_144_000
    }

    /// An E-AC-3 bitrate; a value outside the codec's range is rejected.
    pub fn new(value: u64) -> (r: Result<Self, TargetBitrateError>)
        ensures
            match r {
                Ok(b) => 32_000 <= value <= 6_144_000 && b@ == value,
                Err(e) => !(32_000 <= value <= 6_144_000) && e@ == (
                TargetBitrateErrorView::OutOfRange {
                    codec: "E-AC-3"@,
                    bitrate: value,
                    minimum: 32_000,
                    maximum: 6_144_000,
                }),
            },
    {
        match ranged_bitrate("E-AC-3", value, 32_000, 6_144_000) {
            Ok(bitrate) => Ok(Eac3Bitrate(bitrate)),
            Err(e) => Err(e),
        }
    }

    /// The number of bits per second.
    pub fn get(self) -> (r: u64)
        ensures
            r == self@,
    {
        self.0.get()
    }
}

/// An AAC bitrate.
#[derive(Debug, Clone, Copy, PartialEq, Eq, PartialOrd, Ord, Hash)]
pub struct AacBitrate(Bitrate);

impl View for AacBitrate {
    type V = u64;

    closed spec fn view(&self) -> u64 {
        self.0@
    }
}

impl AacBitrate {
    #[verifier::type_invariant]
    pub open spec fn in_range(self) -> bool {
        8_000 <= self@ <= 1_024_000
    }

    /// An AAC bitrate; a value outside the codec's range is rejected.
    pub fn new(value: u64) -> (r: Result<Self, TargetBitrateError>)
        ensures
            match r {
                Ok(b) => 8_000 <= value <= 1_024_000 && b@ == value,
                Err(e) => !(8_000 <= value <= 1_024_000) && e@ == (
                TargetBitrateErrorView::OutOfRange {
                    codec: "AAC"@,
                    bitrate: value,
                    minimum: 8_000,
                    maximum: 1_024_000,
                }),
            },
    {
        match ranged_bitrate("AAC", value, 8_000, 1_024_000) {
            Ok(bitrate) => Ok(AacBitrate(bitrate)),
            Err(e) => Err(e),
        }
    }

    /// The number of bits per second.
    pub fn get(self) -> (r: u64)
        ensures
            r == self@,
    {
        self.0.get()
    }
}

/// The layout of encoded audio.
#[derive(Debug, Clone, Copy, PartialEq, Eq, Structural, PartialOrd, Ord, Hash)]
#[non_exhaustive]
pub enum TargetLayout {
    /// The channels of the source, at most six.
    KeepUpTo51,
    /// Two channels.
    Stereo,
    /// Six channels.
    Surround51,
}

impl TargetLayout {
    /// The name of the layout for people.
    pub open spec fn label(self) -> Seq<char> {
        match self {
            TargetLayout::KeepUpTo51 => "up to 5.1"@,
            TargetLayout::Stereo => "stereo"@,
            TargetLayout::Surround51 => "5.1"@,
        }
    }

    /// The name of the layout for people.
    pub fn show(self) -> (r: &'static str)
        ensures
            r@ == self.label(),
    {
        match self {
            TargetLayout::KeepUpTo51 => "up to 5.1",
            TargetLayout::Stereo => "stereo",
            TargetLayout::Surround51 => "5.1",
        }
    }
}

/// The codec, bitrate and layout of encoded audio.
#[derive(Debug, Clone, Copy, PartialEq, Eq)]
#[non_exhaustive]
pub enum AudioTarget {
    /// AC-3.
    Ac3 {
        /// Bits per second.
        bitrate: Ac3Bitrate,
        /// Layout.
        layout: TargetLayout,
    },
    /// E-AC-3.
    Eac3 {
        /// Bits per second.
        bitrate: Eac3Bitrate,
        /// Layout.
        layout: TargetLayout,
    },
    /// AAC.
    Aac {
        /// Bits per second.
        bitrate: AacBitrate,
        /// Layout.
        layout: TargetLayout,
    },
}

/// The codec, bitrate and layout of encoded audio.
pub enum TargetView {
    /// AC-3.
    Ac3 { bitrate: u64, layout: TargetLayout },
    /// E-AC-3.
    Eac3 { bitrate: u64, layout: TargetLayout },
    /// AAC.
    Aac { bitrate: u64, layout: TargetLayout },
}

impl View for AudioTarget {
    type V = TargetView;

    open spec fn view(&self) -> TargetView {
        match *self {
            AudioTarget::Ac3 { bitrate, layout } => TargetView::Ac3 { bitrate: bitrate@, layout },
            AudioTarget::Eac3 { bitrate, layout } => TargetView::Eac3 { bitrate: bitrate@, layout },
            AudioTarget::Aac { bitrate, layout } => TargetView::Aac { bitrate: bitrate@, layout },
        }
    }
}

impl TargetView {
    /// The label of the codec.
    pub open spec fn codec_label(self) -> Seq<char> {
        match self {
            TargetView::Ac3 { .. } => "AC-3"@,
            TargetView::Eac3 { .. } => "E-AC-3"@,
            TargetView::Aac { .. } => "AAC"@,
        }
    }

    /// The name of the encoder.
    pub open spec fn encoder(self) -> Seq<char> {
        match self {
            TargetView::Ac3 { .. } => "ac3"@,
            TargetView::Eac3 { .. } => "eac3"@,
            TargetView::Aac { .. } => "aac"@,
        }
    }

    /// The number of bits per second.
    pub open spec fn bitrate(self) -> u64 {
        match self {
            TargetView::Ac3 { bitrate, .. } => bitrate,
            TargetView::Eac3 { bitrate, .. } => bitrate,
            TargetView::Aac { bitrate, .. } => bitrate,
        }
    }

    /// The layout.
    pub open spec fn layout(self) -> TargetLayout {
        match self {
            TargetView::Ac3 { layout, .. } => layout,
            TargetView::Eac3 { layout, .. } => layout,
            TargetView::Aac { layout, .. } => layout,
        }
    }

    /// The name of the layout that a source of so many channels gets.
    pub open spec fn layout_label(self, channels: u16) -> Seq<char> {
        match self.layout() {
            TargetLayout::Stereo => "stereo"@,
            TargetLayout::Surround51 => "5.1"@,
            TargetLayout::KeepUpTo51 => if channels == 1 {
                "mono"@
            } else if channels == 2 {
                "stereo"@
            } else if channels == 3 {
                "3.0"@
            } else if channels == 4 {
                "4.0"@
            } else if channels == 5 {
                "5.0"@
            } else {
                "5.1"@
            },
        }
    }

    /// The number of channels that a source of so many channels gets.
    pub open spec fn output_channels(self, channels: u16) -> u16 {
        match self.layout() {
            TargetLayout::Stereo => 2,
            TargetLayout::Surround51 => 6,
            TargetLayout::KeepUpTo51 => if channels > 6 {
                6
            } else {
                channels
            },
        }
    }
}

impl Default for AudioTarget {
    fn default() -> (r: Self)
        ensures
            r@ == (TargetView::Ac3 { bitrate: 640_000, layout: TargetLayout::KeepUpTo51 }),
    {
        AudioTarget::Ac3 { bitrate: Ac3Bitrate::default(), layout: TargetLayout::KeepUpTo51 }
    }
}

impl AudioTarget {
    /// The label of the codec.
    pub fn codec_label(&self) -> (r: &'static str)
        ensures
            r@ == self@.codec_label(),
    {
        match self {
            AudioTarget::Ac3 { .. } => "AC-3",
            AudioTarget::Eac3 { .. } => "E-AC-3",
            AudioTarget::Aac { .. } => "AAC",
        }
    }

    /// The layout.
    pub fn layout(&self) -> (r: TargetLayout)
        ensures
            r == self@.layout(),
    {
        match self {
            AudioTarget::Ac3 { layout, .. } => *layout,
            AudioTarget::Eac3 { layout, .. } => *layout,
            AudioTarget::Aac { layout, .. } => *layout,
        }
    }

    /// The name of the layout that a source of so many channels gets.
    pub fn layout_label(&self, channels: u16) -> (r: &'static str)
        ensures
            r@ == self@.layout_label(channels),
    {
        match self.layout() {
            TargetLayout::Stereo => "stereo",
            TargetLayout::Surround51 => "5.1",
            TargetLayout::KeepUpTo51 => if channels == 1 {
                "mono"
            } else if channels == 2 {
                "stereo"
            } else if channels == 3 {
                "3.0"
            } else if channels == 4 {
                "4.0"
            } else if channels == 5 {
                "5.0"
            } else {
                "5.1"
            },
        }
    }
}

} // verus!
